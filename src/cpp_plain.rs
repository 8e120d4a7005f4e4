//! A compact C++ header form: member declarations only.

use vstd::prelude::*;
use crate::cpp::{enum_text, guard, section};
use crate::errors::GenerateError;
use crate::model::{ObjModel, ObjectType, OmlObject, Variable, VariableVisibility, vars_view};
use crate::text::to_upper;

pub use crate::cpp::{convert_modifiers_and_type, convert_type, generate_enum};

verus! {

/// The class or struct with its member declarations grouped by visibility:
/// private, protected, then public, each after its label.
pub open spec fn plain_class_text(o: ObjModel) -> Seq<char> {
    (if o.kind == ObjectType::CLASS {
        "class"@
    } else {
        "struct"@
    }) + " "@ + o.name + " {\n"@ + section(o.vars, VariableVisibility::PRIVATE, true) + section(
        o.vars,
        VariableVisibility::PROTECTED,
        true,
    ) + section(o.vars, VariableVisibility::PUBLIC, true) + "};\n"@
}

/// The compact header for an object, or `None` for an `UNDECIDED` one.
pub open spec fn plain_output(o: ObjModel, file: Seq<char>) -> Option<Seq<char>> {
    if o.kind == ObjectType::UNDECIDED {
        None
    } else {
        Some(
            "// This file has been generated from "@ + file + ".oml\n"@ + "#ifndef "@ + guard(file)
                + "\n"@ + "#define "@ + guard(file) + "\n"@ + "#include <cstdint>\n"@
                + "#include <string>\n"@ + "#include <optional>\n\n"@ + (if o.kind
                == ObjectType::ENUM {
                enum_text(o)
            } else {
                plain_class_text(o)
            }) + "#endif // "@ + guard(file) + "\n"@,
        )
    }
}

/// Writes the member declarations grouped by visibility, each group after
/// its label: private, protected, then public.
pub fn generate_variables(variables: &Vec<Variable>, cpp_file: &mut String) -> (r: Result<
    (),
    GenerateError,
>)
    ensures
        r is Ok,
        final(cpp_file)@ == old(cpp_file)@ + section(vars_view(variables@), VariableVisibility::PRIVATE, true)
            + section(vars_view(variables@), VariableVisibility::PROTECTED, true) + section(
            vars_view(variables@),
            VariableVisibility::PUBLIC,
            true,
        ),
{
    crate::cpp::generate_visibility_vars(variables, cpp_file, VariableVisibility::PRIVATE, true);
    crate::cpp::generate_visibility_vars(variables, cpp_file, VariableVisibility::PROTECTED, true);
    crate::cpp::generate_visibility_vars(variables, cpp_file, VariableVisibility::PUBLIC, true);
    Ok(())
}

/// Writes the class or struct of an object; any other kind of object is an
/// error and writes nothing.
pub fn generate_class_or_struct(oml_object: &OmlObject, cpp_file: &mut String) -> (r: Result<
    (),
    GenerateError,
>)
    ensures
        oml_object.oml_type == ObjectType::CLASS || oml_object.oml_type == ObjectType::STRUCT ==> (r
            is Ok && final(cpp_file)@ == old(cpp_file)@ + plain_class_text(oml_object@)),
        !(oml_object.oml_type == ObjectType::CLASS || oml_object.oml_type == ObjectType::STRUCT)
            ==> (r is Err && final(cpp_file)@ == old(cpp_file)@),
{
    let keyword = match oml_object.oml_type {
        ObjectType::CLASS => "class",
        ObjectType::STRUCT => "struct",
        _ => {
            return Err(GenerateError::undecided());
        },
    };
    let mut s = String::from_str(keyword);
    s.append(" ");
    s.append(oml_object.name.as_str());
    s.append(" {\n");
    let ghost head = s@;
    let mut members = String::new();
    generate_variables(&oml_object.variables, &mut members);
    assert(members@ =~= section(vars_view(oml_object.variables@), VariableVisibility::PRIVATE, true)
        + section(vars_view(oml_object.variables@), VariableVisibility::PROTECTED, true) + section(
        vars_view(oml_object.variables@),
        VariableVisibility::PUBLIC,
        true,
    ));
    s.append(members.as_str());
    s.append("};\n");
    assert(s@ =~= plain_class_text(oml_object@));
    cpp_file.append(s.as_str());
    Ok(())
}

/// The compact C++ header for an object: member declarations grouped by
/// visibility, without generated constructors or accessors.
pub fn oml_to_cpp(oml_object: &OmlObject, file_name: &str) -> (r: Result<String, GenerateError>)
    ensures
        match plain_output(oml_object@, file_name@) {
            Some(t) => r matches Ok(s) && s@ == t,
            None => r is Err,
        },
{
    if oml_object.oml_type == ObjectType::UNDECIDED {
        return Err(GenerateError::undecided());
    }
    let mut g = to_upper(file_name);
    g.append("_H");
    let mut cpp_file = String::from_str("// This file has been generated from ");
    cpp_file.append(file_name);
    cpp_file.append(".oml\n");
    cpp_file.append("#ifndef ");
    cpp_file.append(g.as_str());
    cpp_file.append("\n");
    cpp_file.append("#define ");
    cpp_file.append(g.as_str());
    cpp_file.append("\n");
    cpp_file.append("#include <cstdint>\n");
    cpp_file.append("#include <string>\n");
    cpp_file.append("#include <optional>\n\n");
    let mut body = String::new();
    if oml_object.oml_type == ObjectType::ENUM {
        generate_enum(oml_object, &mut body);
    } else {
        generate_class_or_struct(oml_object, &mut body);
    }
    assert(body@ =~= (if oml_object.oml_type == ObjectType::ENUM {
        enum_text(oml_object@)
    } else {
        plain_class_text(oml_object@)
    }));
    cpp_file.append(body.as_str());
    cpp_file.append("#endif // ");
    cpp_file.append(g.as_str());
    cpp_file.append("\n");
    Ok(cpp_file)
}

} // verus!
