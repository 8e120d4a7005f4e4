//! The Python backend.

use vstd::prelude::*;
use crate::emit::{
    concat_map, instance_field, lemma_concat_map_push, lemma_filter_empty, lemma_filter_push,
    lemma_filter_step, lemma_take_all, mutable_field, optional_field, required_field,
    static_field, upper_case_names, upper_names,
};
use crate::errors::GenerateError;
use crate::generate::Generate;
use crate::model::{ObjModel, ObjectType, OmlObject, VarModel, Variable, vars_view};
use crate::text::str_is;

verus! {

/// The Python backend; classes become dataclasses when `use_data_class` is
/// set, structs always do.
#[derive(Debug, Clone, Copy, PartialEq, Eq, Structural)]
pub struct PythonGenerator {
    pub use_data_class: bool,
}

impl PythonGenerator {
    pub fn new(use_data_class: bool) -> (r: Self)
        ensures
            r.use_data_class == use_data_class,
    {
        Self { use_data_class }
    }
}

/// The Python name of an OML type; user-defined types pass through unchanged.
pub open spec fn py_type(t: Seq<char>) -> Seq<char> {
    if t == "int8"@ || t == "int16"@ || t == "int32"@ || t == "int64"@ || t == "uint8"@ || t
        == "uint16"@ || t == "uint32"@ || t == "uint64"@ {
        "int"@
    } else if t == "float"@ || t == "double"@ {
        "float"@
    } else if t == "bool"@ {
        "bool"@
    } else if t == "string"@ || t == "char"@ {
        "str"@
    } else {
        t
    }
}

pub open spec fn digit(d: nat) -> char {
    seq!['0', '1', '2', '3', '4', '5', '6', '7', '8', '9'][d as int]
}

/// The decimal digits of `n`.
pub open spec fn decimal(n: nat) -> Seq<char>
    decreases n,
{
    if n < 10 {
        seq![digit(n)]
    } else {
        decimal(n / 10) + seq![digit(n % 10)]
    }
}

/// Enum members numbered from zero in declaration order.
pub open spec fn py_enum_lines(us: Seq<Seq<char>>) -> Seq<char>
    decreases us.len(),
{
    if us.len() == 0 {
        Seq::<char>::empty()
    } else {
        py_enum_lines(us.drop_last()) + "\t"@ + us.last() + " = "@ + decimal((us.len() - 1) as nat)
            + "\n"@
    }
}

pub open spec fn py_enum(o: ObjModel) -> Seq<char> {
    "from enum import Enum\n"@ + "\n"@ + "class "@ + o.name + "(Enum):\n"@ + if o.vars.len() == 0 {
        "\tpass\n"@
    } else {
        py_enum_lines(upper_names(o.vars))
    }
}

/// Which fields a section of a class is written for.
#[derive(Clone, Copy, PartialEq, Eq, Structural)]
pub enum Selection {
    Statics,
    Instances,
    RequiredInstances,
    OptionalInstances,
}

pub open spec fn selected(vs: Seq<VarModel>, sel: Selection) -> Seq<VarModel> {
    match sel {
        Selection::Statics => vs.filter(static_field()),
        Selection::Instances => vs.filter(instance_field()),
        Selection::RequiredInstances => vs.filter(instance_field()).filter(required_field()),
        Selection::OptionalInstances => vs.filter(instance_field()).filter(optional_field()),
    }
}

pub open spec fn selects(sel: Selection, v: VarModel) -> bool {
    match sel {
        Selection::Statics => v.is_static(),
        Selection::Instances => !v.is_static(),
        Selection::RequiredInstances => !v.is_static() && !v.is_optional(),
        Selection::OptionalInstances => !v.is_static() && v.is_optional(),
    }
}

/// The per-field pieces of text the Python backend writes.
#[derive(Clone, Copy, PartialEq, Eq, Structural)]
pub enum Piece {
    ClassVarLine,
    FieldLine,
    OptionalFieldLine,
    StaticLine,
    Slot,
    InitParam,
    OptionalInitParam,
    Assignment,
    Property,
}

pub open spec fn return_type(v: VarModel) -> Seq<char> {
    if v.is_optional() {
        "Optional["@ + py_type(v.ty) + "]"@
    } else {
        py_type(v.ty)
    }
}

pub open spec fn piece_text(p: Piece, v: VarModel) -> Seq<char> {
    match p {
        Piece::ClassVarLine => "\t"@ + v.name + ": ClassVar["@ + py_type(v.ty) + "]\n"@,
        Piece::FieldLine => "\t"@ + v.name + ": "@ + py_type(v.ty) + "\n"@,
        Piece::OptionalFieldLine => "\t"@ + v.name + ": Optional["@ + py_type(v.ty) + "] = None\n"@,
        Piece::StaticLine => "\t"@ + v.name + ": "@ + py_type(v.ty) + (if v.is_const() {
            " = ..."@
        } else {
            Seq::<char>::empty()
        }) + "\n"@,
        Piece::Slot => "'_"@ + v.name + "', "@,
        Piece::InitParam => ", "@ + v.name + ": "@ + py_type(v.ty),
        Piece::OptionalInitParam => ", "@ + v.name + ": Optional["@ + py_type(v.ty) + "] = None"@,
        Piece::Assignment => "\t\tself._"@ + v.name + " = "@ + v.name + "\n"@,
        Piece::Property => "\t@property\n"@ + "\tdef "@ + v.name + "(self) -> "@ + return_type(v)
            + ":\n"@ + "\t\treturn self._"@ + v.name + "\n"@ + (if !v.is_const() {
            "\t@"@ + v.name + ".setter\n"@ + "\tdef "@ + v.name + "(self, value: "@ + return_type(v)
                + "):\n"@ + "\t\tself._"@ + v.name + " = value\n"@
        } else {
            Seq::<char>::empty()
        }) + "\n"@,
    }
}

pub open spec fn piece_fn(p: Piece) -> spec_fn(VarModel) -> Seq<char> {
    |v: VarModel| piece_text(p, v)
}

/// The text of piece `p` for each field that `sel` selects, in order.
pub open spec fn each(vs: Seq<VarModel>, sel: Selection, p: Piece) -> Seq<char> {
    concat_map(selected(vs, sel), piece_fn(p))
}

pub open spec fn dataclass_text(o: ObjModel) -> Seq<char> {
    let st = selected(o.vars, Selection::Statics);
    let inst = selected(o.vars, Selection::Instances);
    let has_opt = selected(o.vars, Selection::OptionalInstances).len() > 0;
    let all_const = inst.len() > 0 && inst.filter(mutable_field()).len() == 0;
    "from dataclasses import dataclass, field\n"@ + (if st.len() > 0 {
        "from typing import ClassVar\n"@
    } else {
        Seq::<char>::empty()
    }) + (if has_opt {
        "from typing import Optional\n"@
    } else {
        Seq::<char>::empty()
    }) + "\n"@ + (if all_const {
        "@dataclass(frozen=True)\n"@
    } else {
        "@dataclass\n"@
    }) + "class "@ + o.name + ":\n"@ + if o.vars.len() == 0 {
        "\tpass\n"@
    } else {
        each(o.vars, Selection::Statics, Piece::ClassVarLine) + each(
            o.vars,
            Selection::RequiredInstances,
            Piece::FieldLine,
        ) + each(o.vars, Selection::OptionalInstances, Piece::OptionalFieldLine)
    }
}

pub open spec fn regular_class_text(o: ObjModel) -> Seq<char> {
    let st = selected(o.vars, Selection::Statics);
    let inst = selected(o.vars, Selection::Instances);
    let has_opt = selected(o.vars, Selection::OptionalInstances).len() > 0;
    (if has_opt {
        "from typing import Optional\n"@ + "\n"@
    } else {
        Seq::<char>::empty()
    }) + "class "@ + o.name + ":\n"@ + if o.vars.len() == 0 {
        "\tpass\n"@
    } else {
        each(o.vars, Selection::Statics, Piece::StaticLine) + (if st.len() > 0 {
            "\n"@
        } else {
            Seq::<char>::empty()
        }) + (if inst.len() > 0 {
            "\t__slots__ = ("@ + each(o.vars, Selection::Instances, Piece::Slot) + ")\n"@ + "\n"@
                + "\tdef __init__(self"@ + each(
                o.vars,
                Selection::RequiredInstances,
                Piece::InitParam,
            ) + each(o.vars, Selection::OptionalInstances, Piece::OptionalInitParam) + "):\n"@
                + each(o.vars, Selection::Instances, Piece::Assignment) + "\n"@
        } else {
            Seq::<char>::empty()
        }) + each(o.vars, Selection::Instances, Piece::Property)
    }
}

/// The Python module for an object, or `None` for an `UNDECIDED` one.
pub open spec fn py_output(o: ObjModel, file: Seq<char>, use_data_class: bool) -> Option<Seq<char>> {
    if o.kind == ObjectType::UNDECIDED {
        None
    } else {
        Some(
            "# This file has been generated from "@ + file + ".oml\n"@ + "\n"@ + if o.kind
                == ObjectType::ENUM {
                py_enum(o)
            } else if o.kind == ObjectType::CLASS && !use_data_class {
                regular_class_text(o)
            } else {
                dataclass_text(o)
            },
        )
    }
}

} // verus!

verus! {

/// The Python name of an OML type; user-defined types pass through unchanged.
pub fn convert_type(var_type: &str) -> (r: String)
    ensures
        r@ == py_type(var_type@),
{
    let mapped = if str_is(var_type, "int8") || str_is(var_type, "int16") || str_is(
        var_type,
        "int32",
    ) || str_is(var_type, "int64") || str_is(var_type, "uint8") || str_is(var_type, "uint16")
        || str_is(var_type, "uint32") || str_is(var_type, "uint64") {
        "int"
    } else if str_is(var_type, "float") || str_is(var_type, "double") {
        "float"
    } else if str_is(var_type, "bool") {
        "bool"
    } else if str_is(var_type, "string") || str_is(var_type, "char") {
        "str"
    } else {
        var_type
    };
    String::from_str(mapped)
}

fn digit_str(d: usize) -> (r: &'static str)
    requires
        d < 10,
    ensures
        r@ == seq![digit(d as nat)],
{
    proof {
        reveal_strlit("0");
        reveal_strlit("1");
        reveal_strlit("2");
        reveal_strlit("3");
        reveal_strlit("4");
        reveal_strlit("5");
        reveal_strlit("6");
        reveal_strlit("7");
        reveal_strlit("8");
        reveal_strlit("9");
    }
    let r = match d {
        0 => "0",
        1 => "1",
        2 => "2",
        3 => "3",
        4 => "4",
        5 => "5",
        6 => "6",
        7 => "7",
        8 => "8",
        _ => "9",
    };
    assert(r@ =~= seq![digit(d as nat)]);
    r
}

/// Writes the decimal digits of `n`.
pub fn write_decimal(n: usize, out: &mut String)
    ensures
        final(out)@ == old(out)@ + decimal(n as nat),
    decreases n,
{
    if n >= 10 {
        write_decimal(n / 10, out);
    }
    out.append(digit_str(n % 10));
    assert(final(out)@ =~= old(out)@ + decimal(n as nat));
}

/// Writes enum members for the (already upper-cased) entries, numbered from
/// zero in order.
pub fn write_enum_members(out: &mut String, entries: &Vec<String>)
    ensures
        final(out)@ == old(out)@ + py_enum_lines(crate::emit::strs(entries@)),
{
    let ghost es = crate::emit::strs(entries@);
    let mut i: usize = 0;
    assert(es.take(0) =~= seq![]);
    while i < entries.len()
        invariant
            i <= entries.len(),
            es == crate::emit::strs(entries@),
            out@ == old(out)@ + py_enum_lines(es.take(i as int)),
        decreases entries.len() - i,
    {
        out.append("\t");
        out.append(entries[i].as_str());
        out.append(" = ");
        write_decimal(i, out);
        out.append("\n");
        assert(es.take(i + 1).drop_last() =~= es.take(i as int));
        assert(out@ =~= old(out)@ + py_enum_lines(es.take(i + 1)));
        i = i + 1;
    }
    assert(es.take(i as int) =~= es);
}

/// Writes the Enum class of an object, members numbered from zero.
pub fn generate_enum(oml_object: &OmlObject, py_file: &mut String) -> (r: Result<(), GenerateError>)
    ensures
        r is Ok,
        final(py_file)@ == old(py_file)@ + py_enum(oml_object@),
{
    let mut s = String::from_str("from enum import Enum\n");
    s.append("\n");
    s.append("class ");
    s.append(oml_object.name.as_str());
    s.append("(Enum):\n");
    let ghost head = s@;
    if oml_object.variables.len() == 0 {
        s.append("\tpass\n");
    } else {
        let names = upper_case_names(&oml_object.variables);
        write_enum_members(&mut s, &names);
    }
    assert(s@ == py_enum(oml_object@));
    py_file.append(s.as_str());
    Ok(())
}

fn selects_var(sel: Selection, v: &Variable) -> (r: bool)
    ensures
        r == selects(sel, v@),
{
    match sel {
        Selection::Statics => v.is_static(),
        Selection::Instances => !v.is_static(),
        Selection::RequiredInstances => !v.is_static() && !v.is_optional(),
        Selection::OptionalInstances => !v.is_static() && v.is_optional(),
    }
}

proof fn lemma_selected_step(vs: Seq<VarModel>, sel: Selection, i: int)
    requires
        0 <= i < vs.len(),
    ensures
        selected(vs.take(i + 1), sel) == if selects(sel, vs[i]) {
            selected(vs.take(i), sel).push(vs[i])
        } else {
            selected(vs.take(i), sel)
        },
{
    lemma_filter_step(vs, static_field(), i);
    lemma_filter_step(vs, instance_field(), i);
    lemma_filter_push(vs.take(i).filter(instance_field()), vs[i], required_field());
    lemma_filter_push(vs.take(i).filter(instance_field()), vs[i], optional_field());
}

proof fn lemma_selected_empty(sel: Selection)
    ensures
        selected(Seq::<VarModel>::empty(), sel) == Seq::<VarModel>::empty(),
{
    lemma_filter_empty(static_field());
    lemma_filter_empty(instance_field());
    lemma_filter_empty(required_field());
    lemma_filter_empty(optional_field());
}

fn write_piece(p: Piece, v: &Variable, out: &mut String)
    ensures
        final(out)@ == old(out)@ + piece_text(p, v@),
{
    let t = convert_type(v.var_type.as_str());
    let name = v.name.as_str();
    let mut s = String::new();
    match p {
        Piece::ClassVarLine => {
            s.append("\t");
            s.append(name);
            s.append(": ClassVar[");
            s.append(t.as_str());
            s.append("]\n");
        },
        Piece::FieldLine => {
            s.append("\t");
            s.append(name);
            s.append(": ");
            s.append(t.as_str());
            s.append("\n");
        },
        Piece::OptionalFieldLine => {
            s.append("\t");
            s.append(name);
            s.append(": Optional[");
            s.append(t.as_str());
            s.append("] = None\n");
        },
        Piece::StaticLine => {
            s.append("\t");
            s.append(name);
            s.append(": ");
            s.append(t.as_str());
            if v.is_const() {
                s.append(" = ...");
            }
            s.append("\n");
        },
        Piece::Slot => {
            s.append("'_");
            s.append(name);
            s.append("', ");
        },
        Piece::InitParam => {
            s.append(", ");
            s.append(name);
            s.append(": ");
            s.append(t.as_str());
        },
        Piece::OptionalInitParam => {
            s.append(", ");
            s.append(name);
            s.append(": Optional[");
            s.append(t.as_str());
            s.append("] = None");
        },
        Piece::Assignment => {
            s.append("\t\tself._");
            s.append(name);
            s.append(" = ");
            s.append(name);
            s.append("\n");
        },
        Piece::Property => {
            let mut rt = String::new();
            if v.is_optional() {
                rt.append("Optional[");
                rt.append(t.as_str());
                rt.append("]");
            } else {
                rt.append(t.as_str());
            }
            assert(rt@ =~= return_type(v@));
            s.append("\t@property\n");
            s.append("\tdef ");
            s.append(name);
            s.append("(self) -> ");
            s.append(rt.as_str());
            s.append(":\n");
            s.append("\t\treturn self._");
            s.append(name);
            s.append("\n");
            if !v.is_const() {
                s.append("\t@");
                s.append(name);
                s.append(".setter\n");
                s.append("\tdef ");
                s.append(name);
                s.append("(self, value: ");
                s.append(rt.as_str());
                s.append("):\n");
                s.append("\t\tself._");
                s.append(name);
                s.append(" = value\n");
            }
            s.append("\n");
        },
    }
    assert(s@ =~= piece_text(p, v@));
    out.append(s.as_str());
}

/// Writes piece `p` for each field of `variables` that `sel` selects.
pub fn write_each(variables: &Vec<Variable>, sel: Selection, p: Piece, out: &mut String)
    ensures
        final(out)@ == old(out)@ + each(vars_view(variables@), sel, p),
{
    let ghost vs = vars_view(variables@);
    let mut i: usize = 0;
    proof { lemma_selected_empty(sel); }
    assert(vs.take(0) =~= seq![]);
    while i < variables.len()
        invariant
            i <= variables.len(),
            vs == vars_view(variables@),
            out@ == old(out)@ + concat_map(selected(vs.take(i as int), sel), piece_fn(p)),
        decreases variables.len() - i,
    {
        proof { lemma_selected_step(vs, sel, i as int); }
        if selects_var(sel, &variables[i]) {
            write_piece(p, &variables[i], out);
            proof {
                lemma_concat_map_push(selected(vs.take(i as int), sel), vs[i as int], piece_fn(p));
            }
        }
        i = i + 1;
    }
    proof { lemma_take_all(vs); }
}

/// Whether `sel` selects some field of `variables`.
pub fn any_selected(variables: &Vec<Variable>, sel: Selection) -> (r: bool)
    ensures
        r == (selected(vars_view(variables@), sel).len() > 0),
{
    let ghost vs = vars_view(variables@);
    let mut any = false;
    let mut i: usize = 0;
    proof { lemma_selected_empty(sel); }
    assert(vs.take(0) =~= seq![]);
    while i < variables.len()
        invariant
            i <= variables.len(),
            vs == vars_view(variables@),
            any == (selected(vs.take(i as int), sel).len() > 0),
        decreases variables.len() - i,
    {
        proof { lemma_selected_step(vs, sel, i as int); }
        if selects_var(sel, &variables[i]) {
            any = true;
        }
        i = i + 1;
    }
    proof { lemma_take_all(vs); }
    any
}

/// Whether there are instance fields and every one of them is const.
pub fn all_instances_const(variables: &Vec<Variable>) -> (r: bool)
    ensures
        r == ({
            let inst = selected(vars_view(variables@), Selection::Instances);
            inst.len() > 0 && inst.filter(mutable_field()).len() == 0
        }),
{
    let ghost vs = vars_view(variables@);
    let mut any = false;
    let mut mutable = false;
    let mut i: usize = 0;
    proof {
        lemma_filter_empty(instance_field());
        lemma_filter_empty(mutable_field());
    }
    assert(vs.take(0) =~= seq![]);
    while i < variables.len()
        invariant
            i <= variables.len(),
            vs == vars_view(variables@),
            any == (vs.take(i as int).filter(instance_field()).len() > 0),
            mutable == (vs.take(i as int).filter(instance_field()).filter(mutable_field()).len() > 0),
        decreases variables.len() - i,
    {
        proof {
            lemma_filter_step(vs, instance_field(), i as int);
            lemma_filter_push(vs.take(i as int).filter(instance_field()), vs[i as int], mutable_field());
        }
        if !variables[i].is_static() {
            any = true;
            if !variables[i].is_const() {
                mutable = true;
            }
        }
        i = i + 1;
    }
    proof { lemma_take_all(vs); }
    any && !mutable
}

} // verus!

verus! {

/// Writes a dataclass: ClassVar fields first, then the required fields, then
/// the optional ones defaulting to `None`; frozen when every instance field
/// is const.
pub fn generate_data_class(oml_object: &OmlObject, py_file: &mut String) -> (r: Result<(), GenerateError>)
    ensures
        r is Ok,
        final(py_file)@ == old(py_file)@ + dataclass_text(oml_object@),
{
    let vars = &oml_object.variables;
    let has_static = any_selected(vars, Selection::Statics);
    let has_optional = any_selected(vars, Selection::OptionalInstances);
    let frozen = all_instances_const(vars);
    let mut s = String::from_str("from dataclasses import dataclass, field\n");
    let ghost s0 = s@;
    if has_static {
        s.append("from typing import ClassVar\n");
    } else {
        assert(s@ =~= s0 + Seq::<char>::empty());
    }
    let ghost s1 = s@;
    if has_optional {
        s.append("from typing import Optional\n");
    } else {
        assert(s@ =~= s1 + Seq::<char>::empty());
    }
    s.append("\n");
    if frozen {
        s.append("@dataclass(frozen=True)\n");
    } else {
        s.append("@dataclass\n");
    }
    s.append("class ");
    s.append(oml_object.name.as_str());
    s.append(":\n");
    if vars.len() == 0 {
        s.append("\tpass\n");
    } else {
        write_each(vars, Selection::Statics, Piece::ClassVarLine, &mut s);
        write_each(vars, Selection::RequiredInstances, Piece::FieldLine, &mut s);
        write_each(vars, Selection::OptionalInstances, Piece::OptionalFieldLine, &mut s);
    }
    assert(s@ == dataclass_text(oml_object@));
    py_file.append(s.as_str());
    Ok(())
}

/// Writes a plain class: class-level static fields, `__slots__`, an
/// `__init__` with required parameters before optional ones, and a property
/// per instance field (without setter for const fields).
pub fn generate_regular_class(oml_object: &OmlObject, py_file: &mut String) -> (r: Result<
    (),
    GenerateError,
>)
    ensures
        r is Ok,
        final(py_file)@ == old(py_file)@ + regular_class_text(oml_object@),
{
    let vars = &oml_object.variables;
    let ghost vs = vars_view(vars@);
    let has_static = any_selected(vars, Selection::Statics);
    let has_instance = any_selected(vars, Selection::Instances);
    let has_optional = any_selected(vars, Selection::OptionalInstances);
    let mut s = String::new();
    if has_optional {
        s.append("from typing import Optional\n");
        s.append("\n");
    }
    assert(s@ == (if has_optional {
        "from typing import Optional\n"@ + "\n"@
    } else {
        Seq::<char>::empty()
    })) by {
        if has_optional {
            assert(s@ =~= "from typing import Optional\n"@ + "\n"@);
        }
    }
    s.append("class ");
    s.append(oml_object.name.as_str());
    s.append(":\n");
    if vars.len() == 0 {
        s.append("\tpass\n");
    } else {
        let mut rest = String::new();
        write_each(vars, Selection::Statics, Piece::StaticLine, &mut rest);
        assert(rest@ =~= each(vs, Selection::Statics, Piece::StaticLine));
        let ghost a = rest@;
        if has_static {
            rest.append("\n");
        } else {
            assert(rest@ =~= a + Seq::<char>::empty());
        }
        let block = init_block(vars, has_instance);
        rest.append(block.as_str());
        write_each(vars, Selection::Instances, Piece::Property, &mut rest);
        s.append(rest.as_str());
    }
    assert(s@ == regular_class_text(oml_object@));
    py_file.append(s.as_str());
    Ok(())
}

/// `__slots__` and `__init__` of a plain class, when it has instance fields.
fn init_block(vars: &Vec<Variable>, has_instance: bool) -> (r: String)
    requires
        has_instance == (selected(vars_view(vars@), Selection::Instances).len() > 0),
    ensures
        r@ == (if has_instance {
            "\t__slots__ = ("@ + each(vars_view(vars@), Selection::Instances, Piece::Slot) + ")\n"@
                + "\n"@ + "\tdef __init__(self"@ + each(
                vars_view(vars@),
                Selection::RequiredInstances,
                Piece::InitParam,
            ) + each(vars_view(vars@), Selection::OptionalInstances, Piece::OptionalInitParam)
                + "):\n"@ + each(vars_view(vars@), Selection::Instances, Piece::Assignment) + "\n"@
        } else {
            Seq::<char>::empty()
        }),
{
    if !has_instance {
        return String::new();
    }
    let mut s = String::from_str("\t__slots__ = (");
    write_each(vars, Selection::Instances, Piece::Slot, &mut s);
    s.append(")\n");
    s.append("\n");
    s.append("\tdef __init__(self");
    write_each(vars, Selection::RequiredInstances, Piece::InitParam, &mut s);
    write_each(vars, Selection::OptionalInstances, Piece::OptionalInitParam, &mut s);
    s.append("):\n");
    write_each(vars, Selection::Instances, Piece::Assignment, &mut s);
    s.append("\n");
    s
}

/// Writes a class as a dataclass or as a plain class.
pub fn generate_class(oml_object: &OmlObject, py_file: &mut String, use_data_class: bool) -> (r: Result<
    (),
    GenerateError,
>)
    ensures
        r is Ok,
        final(py_file)@ == old(py_file)@ + if use_data_class {
            dataclass_text(oml_object@)
        } else {
            regular_class_text(oml_object@)
        },
{
    if use_data_class {
        generate_data_class(oml_object, py_file)
    } else {
        generate_regular_class(oml_object, py_file)
    }
}

impl Generate for PythonGenerator {
    /// The Python module for an object: a comment naming the schema file,
    /// then the Enum class or the class; a struct is always a dataclass.
    fn generate(&self, oml_object: &OmlObject, file_name: &str) -> (r: Result<String, GenerateError>)
        ensures
            match py_output(oml_object@, file_name@, self.use_data_class) {
                Some(t) => r matches Ok(s) && s@ == t,
                None => r is Err,
            },
    {
        let mut py_file = String::from_str("# This file has been generated from ");
        py_file.append(file_name);
        py_file.append(".oml\n");
        py_file.append("\n");
        match oml_object.oml_type {
            ObjectType::ENUM => {
                generate_enum(oml_object, &mut py_file);
            },
            ObjectType::CLASS => {
                generate_class(oml_object, &mut py_file, self.use_data_class);
            },
            ObjectType::STRUCT => {
                generate_class(oml_object, &mut py_file, true);
            },
            ObjectType::UNDECIDED => {
                return Err(GenerateError::undecided());
            },
        }
        Ok(py_file)
    }

    fn extension(&self) -> (r: &'static str)
        ensures
            r@ == "py"@,
    {
        "py"
    }
}

} // verus!
