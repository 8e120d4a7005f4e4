//! The backend capability and the closed set of backends.

use vstd::prelude::*;
use crate::errors::GenerateError;
use crate::cpp::{CppGenerator, cpp_output};
use crate::kotlin::{KotlinGenerator, kt_output};
use crate::model::{ObjModel, ObjectType, OmlObject};
use crate::python::{PythonGenerator, py_output};

verus! {

/// A target-language backend: turns one object into one unit of source text.
pub trait Generate {
    /// The source text for `oml_object`; `file_name` is the schema file it
    /// came from, without extension.  An `UNDECIDED` object is an error.
    fn generate(&self, oml_object: &OmlObject, file_name: &str) -> (r: Result<String, GenerateError>)
        ensures
            oml_object.oml_type == ObjectType::UNDECIDED ==> r is Err,
    ;

    /// The file extension of the generated text.
    fn extension(&self) -> &'static str;
}

} // verus!

verus! {

/// The closed set of implemented backends, dispatched by `match`.
#[derive(PartialEq, Eq, Structural)]
pub enum Generator {
    Cpp(CppGenerator),
    Python(PythonGenerator),
    Kotlin(KotlinGenerator),
}

/// What a backend produces for an object, or `None` for an `UNDECIDED` one.
pub open spec fn output_of(g: Generator, o: ObjModel, file: Seq<char>) -> Option<Seq<char>> {
    match g {
        Generator::Cpp(_) => cpp_output(o, file),
        Generator::Python(p) => py_output(o, file, p.use_data_class),
        Generator::Kotlin(k) => kt_output(o, file, k.use_data_class),
    }
}

impl Generator {
    /// The source text for `oml_object` in this backend's language.
    pub fn generate(&self, oml_object: &OmlObject, file_name: &str) -> (r: Result<String, GenerateError>)
        ensures
            match output_of(*self, oml_object@, file_name@) {
                Some(t) => r matches Ok(s) && s@ == t,
                None => r is Err,
            },
    {
        match self {
            Generator::Cpp(g) => g.generate(oml_object, file_name),
            Generator::Python(g) => g.generate(oml_object, file_name),
            Generator::Kotlin(g) => g.generate(oml_object, file_name),
        }
    }

    /// The file extension of this backend's output.
    pub fn extension(&self) -> (r: &'static str)
        ensures
            r@ == match *self {
                Generator::Cpp(_) => "h"@,
                Generator::Python(_) => "py"@,
                Generator::Kotlin(_) => "kt"@,
            },
    {
        match self {
            Generator::Cpp(g) => g.extension(),
            Generator::Python(g) => g.extension(),
            Generator::Kotlin(g) => g.extension(),
        }
    }
}

} // verus!

verus! {

/// Generation depends on the object's content and the file name alone:
/// generating twice from the same object gives the same text.
pub proof fn lemma_generation_deterministic(g: Generator, a: ObjModel, b: ObjModel, file: Seq<char>)
    requires
        a == b,
    ensures
        output_of(g, a, file) == output_of(g, b, file),
{
}

} // verus!
