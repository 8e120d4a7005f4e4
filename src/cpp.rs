//! The C++ header backend.

use vstd::prelude::*;
use crate::emit::{
    cap, capitalize_first, concat_map, instance_field, join, join_strings, lemma_concat_map_push,
    lemma_filter_empty, lemma_map_add, lemma_map_push, lemma_strs_add, lemma_strs_push, lemma_filter_push, lemma_filter_step, lemma_take_all, mutable_field,
    optional_field, param_order, required_field, strs, vis_is,
};
use crate::errors::GenerateError;
use crate::generate::Generate;
use crate::model::{ObjModel, ObjectType, OmlObject, VarModel, Variable, VariableVisibility, vars_view};
use crate::text::{byte_len, fits_in_bytes, str_is, to_upper, upper_of};
use crate::emit::{enum_lines, upper_case_names, upper_names, write_enum_entries};

verus! {

/// The C++ header backend: one header per object, with constructors,
/// special members and accessors generated for classes and structs.
#[derive(Debug, Clone, Copy, PartialEq, Eq, Structural)]
pub struct CppGenerator;

/// The C++ name of an OML type; user-defined types pass through unchanged.
pub open spec fn cpp_type(t: Seq<char>) -> Seq<char> {
    if t == "int8"@ {
        "int8_t"@
    } else if t == "int16"@ {
        "int16_t"@
    } else if t == "int32"@ {
        "int32_t"@
    } else if t == "int64"@ {
        "int64_t"@
    } else if t == "uint8"@ {
        "uint8_t"@
    } else if t == "uint16"@ {
        "uint16_t"@
    } else if t == "uint32"@ {
        "uint32_t"@
    } else if t == "uint64"@ {
        "uint64_t"@
    } else if t == "string"@ {
        "std::string"@
    } else {
        t
    }
}

/// The field's C++ type, wrapped in `std::optional` when it is optional.
pub open spec fn full_type(v: VarModel) -> Seq<char> {
    if v.is_optional() {
        "std::optional<"@ + cpp_type(v.ty) + ">"@
    } else {
        cpp_type(v.ty)
    }
}

/// The member declaration line of a field.
pub open spec fn member_decl(v: VarModel) -> Seq<char> {
    "\t"@ + (if v.is_static() {
        "static "@
    } else {
        Seq::<char>::empty()
    }) + (if v.is_const() {
        "const "@
    } else {
        Seq::<char>::empty()
    }) + full_type(v) + " "@ + v.name + ";\n"@
}

pub open spec fn member_decl_fn() -> spec_fn(VarModel) -> Seq<char> {
    |v: VarModel| member_decl(v)
}

pub open spec fn label_text(vis: VariableVisibility) -> Seq<char> {
    match vis {
        VariableVisibility::PUBLIC => "public:\n"@,
        VariableVisibility::PROTECTED => "protected:\n"@,
        VariableVisibility::PRIVATE => "private:\n"@,
    }
}

/// The member declarations of the fields of one visibility, after their
/// label when `label` is set; nothing when there are none.
pub open spec fn section(vs: Seq<VarModel>, vis: VariableVisibility, label: bool) -> Seq<char> {
    let f = vs.filter(vis_is(vis));
    if f.len() == 0 {
        seq![]
    } else {
        (if label {
            label_text(vis)
        } else {
            Seq::<char>::empty()
        }) + concat_map(f, member_decl_fn())
    }
}

pub open spec fn enum_text(o: ObjModel) -> Seq<char> {
    "enum class "@ + o.name + " {\n"@ + enum_lines(upper_names(o.vars)) + "};\n"@
}

pub open spec fn getter(v: VarModel) -> Seq<char> {
    "\t"@ + full_type(v) + " get"@ + cap(v.name) + "() const { return "@ + v.name + "; }\n"@
}

pub open spec fn setter(v: VarModel) -> Seq<char> {
    "\tvoid set"@ + cap(v.name) + "(const "@ + full_type(v) + "& value) { "@ + v.name
        + " = value; }\n"@
}

pub open spec fn getter_fn() -> spec_fn(VarModel) -> Seq<char> {
    |v: VarModel| getter(v)
}

pub open spec fn setter_fn() -> spec_fn(VarModel) -> Seq<char> {
    |v: VarModel| setter(v)
}

/// Getters for every private field, then setters for the private fields
/// that are not const.
pub open spec fn accessors(vs: Seq<VarModel>) -> Seq<char> {
    let pv = vs.filter(vis_is(VariableVisibility::PRIVATE));
    if pv.len() == 0 {
        seq![]
    } else {
        concat_map(pv, getter_fn()) + "\n"@ + concat_map(pv.filter(mutable_field()), setter_fn())
    }
}

pub open spec fn param_text(v: VarModel) -> Seq<char> {
    full_type(v) + " "@ + v.name
}

pub open spec fn init_text(v: VarModel) -> Seq<char> {
    v.name + "(std::move("@ + v.name + "))"@
}

pub open spec fn param_fn() -> spec_fn(VarModel) -> Seq<char> {
    |v: VarModel| param_text(v)
}

pub open spec fn init_fn() -> spec_fn(VarModel) -> Seq<char> {
    |v: VarModel| init_text(v)
}

pub open spec fn params_of(vs: Seq<VarModel>) -> Seq<Seq<char>> {
    vs.map_values(param_fn())
}

pub open spec fn inits_of(vs: Seq<VarModel>) -> Seq<Seq<char>> {
    vs.map_values(init_fn())
}

pub const MAX_LINE_LENGTH: usize = 120;

/// Initializers one per line, the later ones led by a comma.
pub open spec fn init_lines(inits: Seq<Seq<char>>) -> Seq<char>
    decreases inits.len(),
{
    if inits.len() == 0 {
        seq![]
    } else if inits.len() == 1 {
        inits[0] + "\n"@
    } else {
        init_lines(inits.drop_last()) + "\t\t, "@ + inits.last() + "\n"@
    }
}

/// A constructor with its member initializers, on one line when it fits in
/// `MAX_LINE_LENGTH` bytes of UTF-8, else with the initializers on the following
/// line, or one per line when even that does not fit.
pub open spec fn ctor_text(
    prefix: Seq<char>,
    name: Seq<char>,
    params: Seq<Seq<char>>,
    inits: Seq<Seq<char>>,
) -> Seq<char> {
    let ps = join(params, ", "@);
    let is = join(inits, ", "@);
    let single = "\t"@ + prefix + name + "("@ + ps + ") : "@ + is + " {}"@;
    if byte_len(single) <= MAX_LINE_LENGTH {
        single + "\n"@
    } else {
        "\t"@ + prefix + name + "("@ + ps + ")\n"@ + "\t\t: "@ + if byte_len("\t\t: "@ + is
            + " {}"@) <= MAX_LINE_LENGTH {
            is + " {}\n"@
        } else {
            init_lines(inits) + "\t{}\n"@
        }
    }
}

/// The default constructor; with instance fields, also a constructor of the
/// required fields when optional ones exist too, and one of all instance
/// fields (required first) that initializes them in declaration order.
pub open spec fn ctors_text(o: ObjModel) -> Seq<char> {
    let inst = o.vars.filter(instance_field());
    let req = inst.filter(required_field());
    let opt = inst.filter(optional_field());
    "\t"@ + o.name + "() = default;\n"@ + if inst.len() == 0 {
        Seq::<char>::empty()
    } else {
        (if req.len() > 0 && opt.len() > 0 {
            ctor_text("explicit "@, o.name, params_of(req), inits_of(req))
        } else {
            Seq::<char>::empty()
        }) + ctor_text(Seq::<char>::empty(), o.name, params_of(param_order(inst)), inits_of(inst))
    }
}

pub open spec fn specials_text(n: Seq<char>) -> Seq<char> {
    "\t"@ + n + "(const "@ + n + "& other) = default;\n"@ + "\t"@ + n + "("@ + n
        + "&& other) noexcept = default;\n"@ + "\t"@ + n + "& operator=(const "@ + n
        + "& other) = default;\n"@ + "\t"@ + n + "& operator=("@ + n
        + "&& other) noexcept = default;\n"@ + "\t~"@ + n + "() = default;\n"@
}

pub open spec fn includes_text() -> Seq<char> {
    "#include <cstdint>\n#include <string>\n#include <optional>\n#include <utility>\n\n"@
}

/// The class or struct: constructors, special members and accessors under a
/// leading `public:` label, then the member declarations grouped private,
/// protected, public, each group after its label and in declaration order.
pub open spec fn class_text(o: ObjModel) -> Seq<char> {
    (if o.kind == ObjectType::CLASS {
        "class"@
    } else {
        "struct"@
    }) + " "@ + o.name + " {\n"@ + "public:\n"@ + ctors_text(o) + "\n"@ + specials_text(o.name)
        + "\n"@ + accessors(o.vars) + section(o.vars, VariableVisibility::PRIVATE, true) + section(
        o.vars,
        VariableVisibility::PROTECTED,
        true,
    ) + section(o.vars, VariableVisibility::PUBLIC, true) + "};\n"@
}

pub open spec fn guard(file: Seq<char>) -> Seq<char> {
    upper_of(file) + "_H"@
}

/// The whole header for an object, or `None` for an `UNDECIDED` one.
pub open spec fn cpp_output(o: ObjModel, file: Seq<char>) -> Option<Seq<char>> {
    if o.kind == ObjectType::UNDECIDED {
        None
    } else {
        Some(
            "// This file has been generated from "@ + file + ".oml\n"@ + "#ifndef "@ + guard(file)
                + "\n"@ + "#define "@ + guard(file) + "\n"@ + "\n"@ + includes_text() + (if o.kind
                == ObjectType::ENUM {
                enum_text(o)
            } else {
                class_text(o)
            }) + "#endif // "@ + guard(file) + "\n\n"@,
        )
    }
}

} // verus!

verus! {

/// The C++ name of an OML type; user-defined types pass through unchanged.
pub fn convert_type(var_type: &str) -> (r: String)
    ensures
        r@ == cpp_type(var_type@),
{
    let mapped = if str_is(var_type, "int8") {
        "int8_t"
    } else if str_is(var_type, "int16") {
        "int16_t"
    } else if str_is(var_type, "int32") {
        "int32_t"
    } else if str_is(var_type, "int64") {
        "int64_t"
    } else if str_is(var_type, "uint8") {
        "uint8_t"
    } else if str_is(var_type, "uint16") {
        "uint16_t"
    } else if str_is(var_type, "uint32") {
        "uint32_t"
    } else if str_is(var_type, "uint64") {
        "uint64_t"
    } else if str_is(var_type, "string") {
        "std::string"
    } else {
        var_type
    };
    String::from_str(mapped)
}

/// The field's C++ type, wrapped in `std::optional` when it is optional.
pub fn get_full_type(var: &Variable) -> (r: String)
    ensures
        r@ == full_type(var@),
{
    let base = convert_type(var.var_type.as_str());
    if var.is_optional() {
        let mut r = String::from_str("std::optional<");
        r.append(base.as_str());
        r.append(">");
        r
    } else {
        base
    }
}

/// Writes the member declaration line of a field.
pub fn convert_modifiers_and_type(var: &Variable, cpp_file: &mut String) -> (r: Result<
    (),
    GenerateError,
>)
    ensures
        r is Ok,
        final(cpp_file)@ == old(cpp_file)@ + member_decl(var@),
{
    cpp_file.append("\t");
    if var.is_static() {
        cpp_file.append("static ");
    }
    if var.is_const() {
        cpp_file.append("const ");
    }
    let t = get_full_type(var);
    cpp_file.append(t.as_str());
    cpp_file.append(" ");
    cpp_file.append(var.name.as_str());
    cpp_file.append(";\n");
    assert(final(cpp_file)@ =~= old(cpp_file)@ + member_decl(var@));
    Ok(())
}

/// Writes the member declarations of the fields of one visibility, after
/// their label when `write_label` is set.
pub fn generate_visibility_vars(
    variables: &Vec<Variable>,
    cpp_file: &mut String,
    visibility: VariableVisibility,
    write_label: bool,
) -> (r: Result<(), GenerateError>)
    ensures
        r is Ok,
        final(cpp_file)@ == old(cpp_file)@ + section(vars_view(variables@), visibility, write_label),
{
    let ghost vs = vars_view(variables@);
    let mut any = false;
    let mut i: usize = 0;
    while i < variables.len()
        invariant
            i <= variables.len(),
            vs == vars_view(variables@),
            any == (vs.take(i as int).filter(vis_is(visibility)).len() > 0),
        decreases variables.len() - i,
    {
        proof { lemma_filter_step(vs, vis_is(visibility), i as int); }
        if variables[i].visibility == visibility {
            any = true;
        }
        i = i + 1;
    }
    proof { lemma_take_all(vs); }
    if !any {
        assert(final(cpp_file)@ =~= old(cpp_file)@ + section(vs, visibility, write_label));
        return Ok(());
    }
    if write_label {
        match visibility {
            VariableVisibility::PUBLIC => cpp_file.append("public:\n"),
            VariableVisibility::PROTECTED => cpp_file.append("protected:\n"),
            VariableVisibility::PRIVATE => cpp_file.append("private:\n"),
        }
    }
    let ghost start = cpp_file@;
    proof { lemma_filter_empty(vis_is(visibility)); }
    assert(vs.take(0) =~= seq![]);
    let mut i: usize = 0;
    while i < variables.len()
        invariant
            i <= variables.len(),
            vs == vars_view(variables@),
            cpp_file@ == start + concat_map(vs.take(i as int).filter(vis_is(visibility)), member_decl_fn()),
        decreases variables.len() - i,
    {
        proof { lemma_filter_step(vs, vis_is(visibility), i as int); }
        if variables[i].visibility == visibility {
            convert_modifiers_and_type(&variables[i], cpp_file);
            proof {
                lemma_concat_map_push(vs.take(i as int).filter(vis_is(visibility)), vs[i as int], member_decl_fn());
            }
        }
        i = i + 1;
    }
    proof { lemma_take_all(vs); }
    assert(final(cpp_file)@ =~= old(cpp_file)@ + section(vs, visibility, write_label));
    Ok(())
}

/// Writes the enum class of an object.
pub fn generate_enum(oml_object: &OmlObject, cpp_file: &mut String) -> (r: Result<(), GenerateError>)
    ensures
        r is Ok,
        final(cpp_file)@ == old(cpp_file)@ + enum_text(oml_object@),
{
    cpp_file.append("enum class ");
    cpp_file.append(oml_object.name.as_str());
    cpp_file.append(" {\n");
    let names = upper_case_names(&oml_object.variables);
    write_enum_entries(cpp_file, &names);
    cpp_file.append("};\n");
    assert(final(cpp_file)@ =~= old(cpp_file)@ + enum_text(oml_object@));
    Ok(())
}

} // verus!

verus! {

fn write_getter(var: &Variable, cpp_file: &mut String)
    ensures
        final(cpp_file)@ == old(cpp_file)@ + getter(var@),
{
    let t = get_full_type(var);
    let c = capitalize_first(var.name.as_str());
    cpp_file.append("\t");
    cpp_file.append(t.as_str());
    cpp_file.append(" get");
    cpp_file.append(c.as_str());
    cpp_file.append("() const { return ");
    cpp_file.append(var.name.as_str());
    cpp_file.append("; }\n");
    assert(final(cpp_file)@ =~= old(cpp_file)@ + getter(var@));
}

fn write_setter(var: &Variable, cpp_file: &mut String)
    ensures
        final(cpp_file)@ == old(cpp_file)@ + setter(var@),
{
    let t = get_full_type(var);
    let c = capitalize_first(var.name.as_str());
    cpp_file.append("\tvoid set");
    cpp_file.append(c.as_str());
    cpp_file.append("(const ");
    cpp_file.append(t.as_str());
    cpp_file.append("& value) { ");
    cpp_file.append(var.name.as_str());
    cpp_file.append(" = value; }\n");
    assert(final(cpp_file)@ =~= old(cpp_file)@ + setter(var@));
}

/// Writes getters for all private fields, then setters for the private
/// fields that are not const.
pub fn generate_getters_and_setters(variables: &Vec<Variable>, cpp_file: &mut String) -> (r: Result<
    (),
    GenerateError,
>)
    ensures
        r is Ok,
        final(cpp_file)@ == old(cpp_file)@ + accessors(vars_view(variables@)),
{
    let ghost vs = vars_view(variables@);
    let ghost pvis = vis_is(VariableVisibility::PRIVATE);
    let mut getters = String::new();
    let mut any = false;
    let mut i: usize = 0;
    proof { lemma_filter_empty(pvis); }
    assert(vs.take(0) =~= seq![]);
    while i < variables.len()
        invariant
            i <= variables.len(),
            vs == vars_view(variables@),
            pvis == vis_is(VariableVisibility::PRIVATE),
            getters@ == concat_map(vs.take(i as int).filter(pvis), getter_fn()),
            any == (vs.take(i as int).filter(pvis).len() > 0),
        decreases variables.len() - i,
    {
        proof { lemma_filter_step(vs, pvis, i as int); }
        if variables[i].visibility == VariableVisibility::PRIVATE {
            write_getter(&variables[i], &mut getters);
            any = true;
            proof { lemma_concat_map_push(vs.take(i as int).filter(pvis), vs[i as int], getter_fn()); }
        }
        i = i + 1;
    }
    proof { lemma_take_all(vs); }
    if !any {
        assert(final(cpp_file)@ =~= old(cpp_file)@ + accessors(vs));
        return Ok(());
    }
    cpp_file.append(getters.as_str());
    cpp_file.append("\n");
    let ghost start = cpp_file@;
    let mut i: usize = 0;
    proof { lemma_filter_empty(pvis); lemma_filter_empty(mutable_field()); }
    assert(vs.take(0) =~= seq![]);
    while i < variables.len()
        invariant
            i <= variables.len(),
            vs == vars_view(variables@),
            pvis == vis_is(VariableVisibility::PRIVATE),
            cpp_file@ == start + concat_map(
                vs.take(i as int).filter(pvis).filter(mutable_field()),
                setter_fn(),
            ),
        decreases variables.len() - i,
    {
        proof {
            lemma_filter_step(vs, pvis, i as int);
            lemma_filter_push(vs.take(i as int).filter(pvis), vs[i as int], mutable_field());
        }
        if variables[i].visibility == VariableVisibility::PRIVATE && !variables[i].is_const() {
            write_setter(&variables[i], cpp_file);
            proof {
                lemma_concat_map_push(
                    vs.take(i as int).filter(pvis).filter(mutable_field()),
                    vs[i as int],
                    setter_fn(),
                );
            }
        }
        i = i + 1;
    }
    proof { lemma_take_all(vs); }
    assert(final(cpp_file)@ =~= old(cpp_file)@ + accessors(vs));
    Ok(())
}

fn write_init_lines(cpp_file: &mut String, inits: &Vec<String>)
    ensures
        final(cpp_file)@ == old(cpp_file)@ + init_lines(strs(inits@)),
{
    let ghost is = strs(inits@);
    let mut i: usize = 0;
    assert(is.take(0) =~= seq![]);
    while i < inits.len()
        invariant
            i <= inits.len(),
            is == strs(inits@),
            cpp_file@ == old(cpp_file)@ + init_lines(is.take(i as int)),
        decreases inits.len() - i,
    {
        if i > 0 {
            cpp_file.append("\t\t, ");
        }
        cpp_file.append(inits[i].as_str());
        cpp_file.append("\n");
        assert(is.take(i + 1).drop_last() =~= is.take(i as int));
        assert(cpp_file@ =~= old(cpp_file)@ + init_lines(is.take(i + 1)));
        i = i + 1;
    }
    assert(is.take(i as int) =~= is);
}

/// Writes a constructor with its member initializers, on one line when it
/// fits, else wrapped as `ctor_text` describes.
pub fn write_constructor(
    cpp_file: &mut String,
    prefix: &str,
    name: &str,
    params: &Vec<String>,
    inits: &Vec<String>,
) -> (r: Result<(), GenerateError>)
    ensures
        r is Ok,
        final(cpp_file)@ == old(cpp_file)@ + ctor_text(prefix@, name@, strs(params@), strs(inits@)),
{
    let ps = join_strings(params, ", ");
    let is = join_strings(inits, ", ");
    let mut single = String::from_str("\t");
    single.append(prefix);
    single.append(name);
    single.append("(");
    single.append(ps.as_str());
    single.append(") : ");
    single.append(is.as_str());
    single.append(" {}");
    let ghost sp = strs(params@);
    let ghost si = strs(inits@);
    assert(single@ =~= "\t"@ + prefix@ + name@ + "("@ + join(sp, ", "@) + ") : "@ + join(si, ", "@) + " {}"@);
    if fits_in_bytes(single.as_str(), MAX_LINE_LENGTH) {
        cpp_file.append(single.as_str());
        cpp_file.append("\n");
    } else {
        cpp_file.append("\t");
        cpp_file.append(prefix);
        cpp_file.append(name);
        cpp_file.append("(");
        cpp_file.append(ps.as_str());
        cpp_file.append(")\n");
        cpp_file.append("\t\t: ");
        let mut colon = String::from_str("\t\t: ");
        colon.append(is.as_str());
        colon.append(" {}");
        if fits_in_bytes(colon.as_str(), MAX_LINE_LENGTH) {
            cpp_file.append(is.as_str());
            cpp_file.append(" {}\n");
        } else {
            write_init_lines(cpp_file, inits);
            cpp_file.append("\t{}\n");
        }
    }
    assert(final(cpp_file)@ =~= old(cpp_file)@ + ctor_text(prefix@, name@, sp, si));
    Ok(())
}

/// Writes the copy and move constructors, the assignment operators and the
/// destructor, all defaulted.
pub fn generate_copy_move_and_destructor(oml_object: &OmlObject, cpp_file: &mut String) -> (r: Result<
    (),
    GenerateError,
>)
    ensures
        r is Ok,
        final(cpp_file)@ == old(cpp_file)@ + specials_text(oml_object@.name),
{
    let n = oml_object.name.as_str();
    let mut s = String::from_str("\t");
    s.append(n);
    s.append("(const ");
    s.append(n);
    s.append("& other) = default;\n");
    s.append("\t");
    s.append(n);
    s.append("(");
    s.append(n);
    s.append("&& other) noexcept = default;\n");
    s.append("\t");
    s.append(n);
    s.append("& operator=(const ");
    s.append(n);
    s.append("& other) = default;\n");
    s.append("\t");
    s.append(n);
    s.append("& operator=(");
    s.append(n);
    s.append("&& other) noexcept = default;\n");
    s.append("\t~");
    s.append(n);
    s.append("() = default;\n");
    assert(s@ == specials_text(oml_object@.name));
    cpp_file.append(s.as_str());
    Ok(())
}

fn param_string(var: &Variable) -> (r: String)
    ensures
        r@ == param_text(var@),
{
    let mut r = get_full_type(var);
    r.append(" ");
    r.append(var.name.as_str());
    r
}

fn init_string(var: &Variable) -> (r: String)
    ensures
        r@ == init_text(var@),
{
    let mut r = String::from_str(var.name.as_str());
    r.append("(std::move(");
    r.append(var.name.as_str());
    r.append("))");
    r
}

/// Writes the default constructor and, with instance fields, the
/// required-fields constructor (when optional fields exist too) and the
/// constructor of all instance fields.
pub fn generate_constructors(oml_object: &OmlObject, cpp_file: &mut String) -> (r: Result<
    (),
    GenerateError,
>)
    ensures
        r is Ok,
        final(cpp_file)@ == old(cpp_file)@ + ctors_text(oml_object@),
{
    let ghost vs = vars_view(oml_object.variables@);
    let ghost inst_p = instance_field();
    let vars = &oml_object.variables;
    let mut req_params: Vec<String> = Vec::new();
    let mut req_inits: Vec<String> = Vec::new();
    let mut opt_params: Vec<String> = Vec::new();
    let mut all_inits: Vec<String> = Vec::new();
    let mut i: usize = 0;
    proof {
        lemma_filter_empty(inst_p);
        lemma_filter_empty(required_field());
        lemma_filter_empty(optional_field());
    }
    assert(vs.take(0) =~= seq![]);
    assert(strs(req_params@) =~= seq![]);
    assert(params_of(seq![]) =~= seq![]);
    assert(inits_of(seq![]) =~= seq![]);
    while i < vars.len()
        invariant
            i <= vars.len(),
            vars == &oml_object.variables,
            vs == vars_view(vars@),
            inst_p == instance_field(),
            strs(req_params@) == params_of(vs.take(i as int).filter(inst_p).filter(required_field())),
            strs(req_inits@) == inits_of(vs.take(i as int).filter(inst_p).filter(required_field())),
            strs(opt_params@) == params_of(vs.take(i as int).filter(inst_p).filter(optional_field())),
            strs(all_inits@) == inits_of(vs.take(i as int).filter(inst_p)),
        decreases vars.len() - i,
    {
        let ghost xs = vs.take(i as int).filter(inst_p);
        let ghost x = vs[i as int];
        proof {
            lemma_filter_step(vs, inst_p, i as int);
            lemma_filter_push(xs, x, required_field());
            lemma_filter_push(xs, x, optional_field());
        }
        let v = &vars[i];
        if !v.is_static() {
            let ghost r0 = xs.filter(required_field());
            let ghost o0 = xs.filter(optional_field());
            let it = init_string(v);
            proof {
                lemma_strs_push(all_inits@, it);
                lemma_map_push(xs, x, init_fn());
            }
            all_inits.push(it);
            if v.is_optional() {
                let pt = param_string(v);
                proof {
                    lemma_strs_push(opt_params@, pt);
                    lemma_map_push(o0, x, param_fn());
                }
                opt_params.push(pt);
            } else {
                let pt = param_string(v);
                let it2 = init_string(v);
                proof {
                    lemma_strs_push(req_params@, pt);
                    lemma_strs_push(req_inits@, it2);
                    lemma_map_push(r0, x, param_fn());
                    lemma_map_push(r0, x, init_fn());
                }
                req_params.push(pt);
                req_inits.push(it2);
            }
        }
        i = i + 1;
    }
    proof { lemma_take_all(vs); }
    let name = oml_object.name.as_str();
    cpp_file.append("\t");
    cpp_file.append(name);
    cpp_file.append("() = default;\n");
    if all_inits.len() == 0 {
        assert(final(cpp_file)@ =~= old(cpp_file)@ + ctors_text(oml_object@));
        return Ok(());
    }
    let ghost mid = cpp_file@;
    let ghost inst = vs.filter(inst_p);
    let ghost req = inst.filter(required_field());
    let ghost opt = inst.filter(optional_field());
    assert(strs(req_params@).len() == req_params@.len());
    assert(strs(opt_params@).len() == opt_params@.len());
    assert(strs(all_inits@).len() == all_inits@.len());
    assert(req_params@.len() == req.len());
    assert(opt_params@.len() == opt.len());
    assert(all_inits@.len() == inst.len());
    if req_params.len() > 0 && opt_params.len() > 0 {
        write_constructor(cpp_file, "explicit ", name, &req_params, &req_inits);
    }
    let ghost mid2 = cpp_file@;
    assert(mid2 == mid + (if req.len() > 0 && opt.len() > 0 {
        ctor_text("explicit "@, name@, params_of(req), inits_of(req))
    } else {
        Seq::<char>::empty()
    })) by {
        if !(req.len() > 0 && opt.len() > 0) {
            assert(mid2 =~= mid + Seq::<char>::empty());
        }
    }
    let mut full: Vec<String> = Vec::new();
    let mut k: usize = 0;
    while k < req_params.len()
        invariant
            k <= req_params.len(),
            full@ == req_params@.take(k as int),
        decreases req_params.len() - k,
    {
        full.push(req_params[k].clone());
        assert(full@ =~= req_params@.take(k + 1));
        k = k + 1;
    }
    let mut k: usize = 0;
    assert(req_params@.take(req_params.len() as int) =~= req_params@);
    while k < opt_params.len()
        invariant
            k <= opt_params.len(),
            full@ == req_params@ + opt_params@.take(k as int),
        decreases opt_params.len() - k,
    {
        full.push(opt_params[k].clone());
        assert(full@ =~= req_params@ + opt_params@.take(k + 1));
        k = k + 1;
    }
    assert(opt_params@.take(opt_params.len() as int) =~= opt_params@);
    proof {
        lemma_strs_add(req_params@, opt_params@);
        lemma_map_add(inst.filter(required_field()), inst.filter(optional_field()), param_fn());
    }
    assert(strs(full@) == params_of(param_order(inst)));
    proof {
        reveal_strlit("");
    }
    assert(""@ =~= Seq::<char>::empty());
    write_constructor(cpp_file, "", name, &full, &all_inits);
    assert(final(cpp_file)@ =~= old(cpp_file)@ + ctors_text(oml_object@));
    Ok(())
}

} // verus!

verus! {

/// Writes the class or struct of an object; any other kind of object is an
/// error and writes nothing.
pub fn generate_class_or_struct(oml_object: &OmlObject, cpp_file: &mut String) -> (r: Result<
    (),
    GenerateError,
>)
    ensures
        oml_object.oml_type == ObjectType::CLASS || oml_object.oml_type == ObjectType::STRUCT ==> (r
            is Ok && final(cpp_file)@ == old(cpp_file)@ + class_text(oml_object@)),
        !(oml_object.oml_type == ObjectType::CLASS || oml_object.oml_type == ObjectType::STRUCT)
            ==> (r is Err && final(cpp_file)@ == old(cpp_file)@),
{
    let keyword = match oml_object.oml_type {
        ObjectType::CLASS => "class",
        ObjectType::STRUCT => "struct",
        _ => {
            return Err(GenerateError::undecided());
        },
    };
    let vars = &oml_object.variables;
    let mut body = String::from_str(keyword);
    body.append(" ");
    body.append(oml_object.name.as_str());
    body.append(" {\n");
    body.append("public:\n");
    generate_constructors(oml_object, &mut body);
    body.append("\n");
    generate_copy_move_and_destructor(oml_object, &mut body);
    body.append("\n");
    generate_getters_and_setters(vars, &mut body);
    generate_visibility_vars(vars, &mut body, VariableVisibility::PRIVATE, true);
    generate_visibility_vars(vars, &mut body, VariableVisibility::PROTECTED, true);
    generate_visibility_vars(vars, &mut body, VariableVisibility::PUBLIC, true);
    body.append("};\n");
    assert(body@ == class_text(oml_object@));
    cpp_file.append(body.as_str());
    Ok(())
}

impl Generate for CppGenerator {
    /// The header for an object: a comment naming the schema file, an include
    /// guard from the upper-cased file name, and the enum or class.
    fn generate(&self, oml_object: &OmlObject, file_name: &str) -> (r: Result<String, GenerateError>)
        ensures
            match cpp_output(oml_object@, file_name@) {
                Some(t) => r matches Ok(s) && s@ == t,
                None => r is Err,
            },
    {
        if oml_object.oml_type == ObjectType::UNDECIDED {
            return Err(GenerateError::undecided());
        }
        let mut g = to_upper(file_name);
        g.append("_H");
        let mut cpp_file = String::from_str("// This file has been generated from ");
        cpp_file.append(file_name);
        cpp_file.append(".oml\n");
        cpp_file.append("#ifndef ");
        cpp_file.append(g.as_str());
        cpp_file.append("\n");
        cpp_file.append("#define ");
        cpp_file.append(g.as_str());
        cpp_file.append("\n");
        cpp_file.append("\n");
        cpp_file.append(
            "#include <cstdint>\n#include <string>\n#include <optional>\n#include <utility>\n\n",
        );
        if oml_object.oml_type == ObjectType::ENUM {
            generate_enum(oml_object, &mut cpp_file);
        } else {
            generate_class_or_struct(oml_object, &mut cpp_file);
        }
        cpp_file.append("#endif // ");
        cpp_file.append(g.as_str());
        cpp_file.append("\n\n");
        assert(cpp_file@ =~= cpp_output(oml_object@, file_name@)->Some_0);
        Ok(cpp_file)
    }

    fn extension(&self) -> (r: &'static str)
        ensures
            r@ == "h"@,
    {
        "h"
    }
}

} // verus!
