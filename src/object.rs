//! Objects and files built from schema text.

use vstd::prelude::*;
use crate::errors::{NameError, name_error_text};
use crate::model::{ObjModel, ObjectType, OmlFile, OmlObject};
use crate::names::valid_name;
use crate::scanner::{ScanError, ScanFault, objs_view, scan, scan_outcome_is, scan_text};

verus! {

/// A schema file that could not be read into objects.
#[derive(Debug, Clone)]
pub struct FileError {
    pub file_name: String,
    pub error: ScanError,
}

impl OmlObject {
    /// An object with no keyword matched yet: `UNDECIDED`, unnamed, no fields.
    pub fn new() -> (r: Self)
        ensures
            r@ == (ObjModel { kind: ObjectType::UNDECIDED, name: seq![], vars: seq![] }),
    {
        let r = Self { oml_type: ObjectType::UNDECIDED, name: String::new(), variables: Vec::new() };
        assert(r@.vars =~= seq![]);
        r
    }

    /// Whether `name` is a legal object, field or type name.
    pub fn is_valid_name(name: &str) -> (r: bool)
        ensures
            r == valid_name(name@),
    {
        crate::names::is_valid_name(name)
    }

    /// Names the object `name`, or leaves it as it is and reports the bad name.
    pub fn assign_obj_name(&mut self, name: &str) -> (r: Result<(), NameError>)
        ensures
            valid_name(name@) ==> r is Ok && final(self)@ == (ObjModel {
                kind: old(self)@.kind,
                name: name@,
                vars: old(self)@.vars,
            }),
            !valid_name(name@) ==> (r matches Err(e) && e.message@ == name_error_text(name@)),
            !valid_name(name@) ==> final(self)@ == old(self)@,
    {
        if Self::is_valid_name(name) {
            self.name = String::from_str(name);
            Ok(())
        } else {
            Err(NameError::for_name(name))
        }
    }

    /// The objects a schema text declares, in order, or the first error met.
    pub fn scan_file(content: &str) -> (r: Result<Vec<OmlObject>, ScanError>)
        ensures
            scan_outcome_is(r, scan(content@)),
    {
        scan_text(content)
    }
}

impl OmlFile {
    /// The objects of one schema file, grouped under its name (given without
    /// extension); an error names the file.
    pub fn from_source(file_name: &str, content: &str) -> (r: Result<OmlFile, FileError>)
        ensures
            match r {
                Ok(f) => f.file_name@ == file_name@ && scan(content@) == Ok::<
                    Seq<ObjModel>,
                    ScanFault,
                >(objs_view(f.objects@)),
                Err(e) => e.file_name@ == file_name@ && scan_outcome_is(
                    Err(e.error),
                    scan(content@),
                ),
            },
    {
        match OmlObject::scan_file(content) {
            Ok(objects) => Ok(OmlFile { file_name: String::from_str(file_name), objects }),
            Err(error) => Err(FileError { file_name: String::from_str(file_name), error }),
        }
    }
}

} // verus!
