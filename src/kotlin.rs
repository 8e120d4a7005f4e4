//! The Kotlin backend.

use vstd::prelude::*;
use crate::emit::{
    concat_map, enum_lines, instance_field, join, join_strings, lemma_concat_map_push,
    lemma_filter_empty, lemma_filter_push, lemma_filter_step, lemma_map_add, lemma_map_push,
    lemma_strs_add, lemma_strs_push, lemma_take_all, optional_field, param_order, required_field,
    static_field, strs, upper_case_names, upper_names, write_enum_entries,
};
use crate::errors::GenerateError;
use crate::generate::Generate;
use crate::model::{ObjModel, ObjectType, OmlObject, VarModel, Variable, VariableVisibility, vars_view};
use crate::text::str_is;

verus! {

/// The Kotlin backend; classes become data classes when `use_data_class` is
/// set, structs always do.
#[derive(Debug, Clone, Copy, PartialEq, Eq, Structural)]
pub struct KotlinGenerator {
    pub use_data_class: bool,
}

impl KotlinGenerator {
    pub fn new(use_data_class: bool) -> (r: Self)
        ensures
            r.use_data_class == use_data_class,
    {
        Self { use_data_class }
    }
}

/// The Kotlin name of an OML type; user-defined types pass through unchanged.
pub open spec fn kt_type(t: Seq<char>) -> Seq<char> {
    if t == "int8"@ || t == "int16"@ || t == "int32"@ {
        "Int"@
    } else if t == "int64"@ {
        "Long"@
    } else if t == "uint8"@ || t == "uint16"@ || t == "uint32"@ {
        "UInt"@
    } else if t == "uint64"@ {
        "ULong"@
    } else if t == "float"@ {
        "Float"@
    } else if t == "double"@ {
        "Double"@
    } else if t == "bool"@ {
        "Boolean"@
    } else if t == "string"@ {
        "String"@
    } else if t == "char"@ {
        "Char"@
    } else {
        t
    }
}

pub open spec fn kt_enum(o: ObjModel) -> Seq<char> {
    "enum class "@ + o.name + " {\n"@ + enum_lines(upper_names(o.vars)) + "}\n"@
}

pub open spec fn vis_prefix(v: VarModel) -> Seq<char> {
    match v.vis {
        VariableVisibility::PRIVATE => "private "@,
        VariableVisibility::PROTECTED => "protected "@,
        VariableVisibility::PUBLIC => Seq::<char>::empty(),
    }
}

/// `val` for a const field, `var` otherwise.
pub open spec fn binding(v: VarModel) -> Seq<char> {
    if v.is_const() {
        "val "@
    } else {
        "var "@
    }
}

/// A property of the primary constructor; `nullable` adds `? = null`.
pub open spec fn property_param(v: VarModel, nullable: bool) -> Seq<char> {
    "\t"@ + vis_prefix(v) + binding(v) + v.name + ": "@ + kt_type(v.ty) + if nullable {
        "? = null"@
    } else {
        Seq::<char>::empty()
    }
}

pub open spec fn property_fn() -> spec_fn(VarModel) -> Seq<char> {
    |v: VarModel| property_param(v, v.is_optional())
}

/// The constructor's property lines, separated by commas, in parameter order.
pub open spec fn params_block(xs: Seq<VarModel>) -> Seq<char> {
    if xs.len() == 0 {
        Seq::<char>::empty()
    } else {
        join(xs.map_values(property_fn()), ",\n"@) + "\n"@
    }
}

pub open spec fn static_property(v: VarModel) -> Seq<char> {
    "\t\t"@ + binding(v) + v.name + ": "@ + kt_type(v.ty) + (if v.is_optional() {
        "? = null"@
    } else {
        Seq::<char>::empty()
    }) + "\n"@
}

pub open spec fn static_property_fn() -> spec_fn(VarModel) -> Seq<char> {
    |v: VarModel| static_property(v)
}

/// A class with a primary constructor of its instance fields (required
/// first) and a companion object holding its static fields.
pub open spec fn kt_class(o: ObjModel, data: bool) -> Seq<char> {
    let kw = if data {
        "data class"@
    } else {
        "class"@
    };
    let st = o.vars.filter(static_field());
    let inst = o.vars.filter(instance_field());
    if o.vars.len() == 0 {
        kw + " "@ + o.name + "\n"@
    } else {
        (if inst.len() == 0 {
            kw + " "@ + o.name + " {\n"@
        } else {
            kw + " "@ + o.name + "(\n"@ + params_block(param_order(inst)) + ")"@ + if st.len() == 0 {
                "\n"@
            } else {
                " {\n"@
            }
        }) + if st.len() > 0 {
            "\tcompanion object {\n"@ + concat_map(st, static_property_fn()) + "\t}\n"@ + "}\n"@
        } else {
            Seq::<char>::empty()
        }
    }
}

/// The Kotlin file for an object, or `None` for an `UNDECIDED` one.
pub open spec fn kt_output(o: ObjModel, file: Seq<char>, use_data_class: bool) -> Option<Seq<char>> {
    if o.kind == ObjectType::UNDECIDED {
        None
    } else {
        Some(
            "// This file has been generated from "@ + file + ".oml\n"@ + "\n"@ + if o.kind
                == ObjectType::ENUM {
                kt_enum(o)
            } else if o.kind == ObjectType::CLASS {
                kt_class(o, use_data_class)
            } else {
                kt_class(o, true)
            },
        )
    }
}

/// The Kotlin name of an OML type; user-defined types pass through unchanged.
pub fn convert_type(var_type: &str) -> (r: String)
    ensures
        r@ == kt_type(var_type@),
{
    let mapped = if str_is(var_type, "int8") || str_is(var_type, "int16") || str_is(
        var_type,
        "int32",
    ) {
        "Int"
    } else if str_is(var_type, "int64") {
        "Long"
    } else if str_is(var_type, "uint8") || str_is(var_type, "uint16") || str_is(
        var_type,
        "uint32",
    ) {
        "UInt"
    } else if str_is(var_type, "uint64") {
        "ULong"
    } else if str_is(var_type, "float") {
        "Float"
    } else if str_is(var_type, "double") {
        "Double"
    } else if str_is(var_type, "bool") {
        "Boolean"
    } else if str_is(var_type, "string") {
        "String"
    } else if str_is(var_type, "char") {
        "Char"
    } else {
        var_type
    };
    String::from_str(mapped)
}

/// Writes the enum class of an object.
pub fn generate_enum(oml_object: &OmlObject, kt_file: &mut String) -> (r: Result<(), GenerateError>)
    ensures
        r is Ok,
        final(kt_file)@ == old(kt_file)@ + kt_enum(oml_object@),
{
    let mut body = String::from_str("enum class ");
    body.append(oml_object.name.as_str());
    body.append(" {\n");
    let names = upper_case_names(&oml_object.variables);
    write_enum_entries(&mut body, &names);
    body.append("}\n");
    kt_file.append(body.as_str());
    Ok(())
}

/// Writes one constructor property; `is_optional` makes it nullable with a
/// `null` default.
pub fn write_property_param(var: &Variable, kt_file: &mut String, is_optional: bool) -> (r: Result<
    (),
    GenerateError,
>)
    ensures
        r is Ok,
        final(kt_file)@ == old(kt_file)@ + property_param(var@, is_optional),
{
    let mut s = String::from_str("\t");
    match var.visibility {
        VariableVisibility::PRIVATE => s.append("private "),
        VariableVisibility::PROTECTED => s.append("protected "),
        VariableVisibility::PUBLIC => {},
    }
    if var.is_const() {
        s.append("val ");
    } else {
        s.append("var ");
    }
    let t = convert_type(var.var_type.as_str());
    s.append(var.name.as_str());
    s.append(": ");
    s.append(t.as_str());
    if is_optional {
        s.append("? = null");
    }
    assert(s@ =~= property_param(var@, is_optional));
    kt_file.append(s.as_str());
    Ok(())
}

/// Writes one property of the companion object.
pub fn write_static_property(var: &Variable, kt_file: &mut String) -> (r: Result<(), GenerateError>)
    ensures
        r is Ok,
        final(kt_file)@ == old(kt_file)@ + static_property(var@),
{
    let mut s = String::from_str("\t\t");
    if var.is_const() {
        s.append("val ");
    } else {
        s.append("var ");
    }
    let t = convert_type(var.var_type.as_str());
    s.append(var.name.as_str());
    s.append(": ");
    s.append(t.as_str());
    if var.is_optional() {
        s.append("? = null");
    }
    s.append("\n");
    assert(s@ =~= static_property(var@));
    kt_file.append(s.as_str());
    Ok(())
}

} // verus!

verus! {

/// Whether some field of `variables` is static, and whether some is not.
pub fn static_and_instance(variables: &Vec<Variable>) -> (r: (bool, bool))
    ensures
        r.0 == (vars_view(variables@).filter(static_field()).len() > 0),
        r.1 == (vars_view(variables@).filter(instance_field()).len() > 0),
{
    let ghost vs = vars_view(variables@);
    let mut has_static = false;
    let mut has_instance = false;
    let mut i: usize = 0;
    proof {
        lemma_filter_empty(static_field());
        lemma_filter_empty(instance_field());
    }
    assert(vs.take(0) =~= seq![]);
    while i < variables.len()
        invariant
            i <= variables.len(),
            vs == vars_view(variables@),
            has_static == (vs.take(i as int).filter(static_field()).len() > 0),
            has_instance == (vs.take(i as int).filter(instance_field()).len() > 0),
        decreases variables.len() - i,
    {
        proof {
            lemma_filter_step(vs, static_field(), i as int);
            lemma_filter_step(vs, instance_field(), i as int);
        }
        if variables[i].is_static() {
            has_static = true;
        } else {
            has_instance = true;
        }
        i = i + 1;
    }
    proof { lemma_take_all(vs); }
    (has_static, has_instance)
}

/// Writes the primary-constructor properties of the instance (non-static)
/// fields of `variables`: required ones first, then the optional ones, each
/// group in declaration order, separated by commas.
pub fn write_constructor_params(variables: &Vec<Variable>, kt_file: &mut String) -> (r: Result<
    (),
    GenerateError,
>)
    ensures
        r is Ok,
        final(kt_file)@ == old(kt_file)@ + params_block(
            param_order(vars_view(variables@).filter(instance_field())),
        ),
{
    let ghost vs = vars_view(variables@);
    let ghost inst_p = instance_field();
    let mut req_lines: Vec<String> = Vec::new();
    let mut opt_lines: Vec<String> = Vec::new();
    let mut i: usize = 0;
    proof {
        lemma_filter_empty(inst_p);
        lemma_filter_empty(required_field());
        lemma_filter_empty(optional_field());
    }
    assert(vs.take(0) =~= seq![]);
    assert(strs(req_lines@) =~= seq![]);
    assert(Seq::<VarModel>::empty().map_values(property_fn()) =~= seq![]);
    while i < variables.len()
        invariant
            i <= variables.len(),
            vs == vars_view(variables@),
            inst_p == instance_field(),
            strs(req_lines@) == vs.take(i as int).filter(inst_p).filter(required_field()).map_values(
                property_fn(),
            ),
            strs(opt_lines@) == vs.take(i as int).filter(inst_p).filter(optional_field()).map_values(
                property_fn(),
            ),
        decreases variables.len() - i,
    {
        let ghost xs = vs.take(i as int).filter(inst_p);
        let ghost x = vs[i as int];
        proof {
            lemma_filter_step(vs, inst_p, i as int);
            lemma_filter_push(xs, x, required_field());
            lemma_filter_push(xs, x, optional_field());
        }
        let v = &variables[i];
        if !v.is_static() {
            let opt = v.is_optional();
            let mut line = String::new();
            write_property_param(v, &mut line, opt);
            assert(line@ =~= property_param(x, opt));
            if opt {
                proof {
                    lemma_strs_push(opt_lines@, line);
                    lemma_map_push(xs.filter(optional_field()), x, property_fn());
                }
                opt_lines.push(line);
            } else {
                proof {
                    lemma_strs_push(req_lines@, line);
                    lemma_map_push(xs.filter(required_field()), x, property_fn());
                }
                req_lines.push(line);
            }
        }
        i = i + 1;
    }
    proof { lemma_take_all(vs); }
    let mut all = req_lines;
    let mut k: usize = 0;
    let ghost req_view = all@;
    while k < opt_lines.len()
        invariant
            k <= opt_lines.len(),
            all@ == req_view + opt_lines@.take(k as int),
        decreases opt_lines.len() - k,
    {
        all.push(opt_lines[k].clone());
        assert(all@ =~= req_view + opt_lines@.take(k + 1));
        k = k + 1;
    }
    assert(opt_lines@.take(opt_lines.len() as int) =~= opt_lines@);
    let ghost inst = vs.filter(inst_p);
    proof {
        lemma_strs_add(req_view, opt_lines@);
        lemma_map_add(inst.filter(required_field()), inst.filter(optional_field()), property_fn());
    }
    assert(strs(all@) == param_order(inst).map_values(property_fn()));
    assert(strs(all@).len() == all@.len());
    if all.len() > 0 {
        let joined = join_strings(&all, ",\n");
        kt_file.append(joined.as_str());
        kt_file.append("\n");
    } else {
        assert(final(kt_file)@ =~= old(kt_file)@ + Seq::<char>::empty());
    }
    Ok(())
}

/// Writes a class (a data class when `use_data_class` is set) with its
/// primary constructor and companion object.
pub fn generate_class(oml_object: &OmlObject, kt_file: &mut String, use_data_class: bool) -> (r: Result<
    (),
    GenerateError,
>)
    ensures
        r is Ok,
        final(kt_file)@ == old(kt_file)@ + kt_class(oml_object@, use_data_class),
{
    let vars = &oml_object.variables;
    let ghost vs = vars_view(vars@);
    let mut s = String::from_str(if use_data_class { "data class" } else { "class" });
    if vars.len() == 0 {
        s.append(" ");
        s.append(oml_object.name.as_str());
        s.append("\n");
        kt_file.append(s.as_str());
        return Ok(());
    }
    let (has_static, has_instance) = static_and_instance(vars);
    if !has_instance {
        s.append(" ");
        s.append(oml_object.name.as_str());
        s.append(" {\n");
    } else {
        s.append(" ");
        s.append(oml_object.name.as_str());
        s.append("(\n");
        write_constructor_params(vars, &mut s);
        s.append(")");
        if !has_static {
            s.append("\n");
        } else {
            s.append(" {\n");
        }
    }
    let ghost head = s@;
    if has_static {
        s.append("\tcompanion object {\n");
        let ghost start = s@;
        let mut i: usize = 0;
        proof { lemma_filter_empty(static_field()); }
        assert(vs.take(0) =~= seq![]);
        while i < vars.len()
            invariant
                i <= vars.len(),
                vars == &oml_object.variables,
                vs == vars_view(vars@),
                s@ == start + concat_map(vs.take(i as int).filter(static_field()), static_property_fn()),
            decreases vars.len() - i,
        {
            proof { lemma_filter_step(vs, static_field(), i as int); }
            if vars[i].is_static() {
                write_static_property(&vars[i], &mut s);
                proof {
                    lemma_concat_map_push(
                        vs.take(i as int).filter(static_field()),
                        vs[i as int],
                        static_property_fn(),
                    );
                }
            }
            i = i + 1;
        }
        proof { lemma_take_all(vs); }
        s.append("\t}\n");
        s.append("}\n");
    } else {
        assert(s@ =~= head + Seq::<char>::empty());
    }
    assert(s@ == kt_class(oml_object@, use_data_class));
    kt_file.append(s.as_str());
    Ok(())
}

impl Generate for KotlinGenerator {
    /// The Kotlin file for an object: a comment naming the schema file, then
    /// the enum class or the class; a struct is always a data class.
    fn generate(&self, oml_object: &OmlObject, file_name: &str) -> (r: Result<String, GenerateError>)
        ensures
            match kt_output(oml_object@, file_name@, self.use_data_class) {
                Some(t) => r matches Ok(s) && s@ == t,
                None => r is Err,
            },
    {
        let mut kt_file = String::from_str("// This file has been generated from ");
        kt_file.append(file_name);
        kt_file.append(".oml\n");
        kt_file.append("\n");
        match oml_object.oml_type {
            ObjectType::ENUM => {
                generate_enum(oml_object, &mut kt_file);
            },
            ObjectType::CLASS => {
                generate_class(oml_object, &mut kt_file, self.use_data_class);
            },
            ObjectType::STRUCT => {
                generate_class(oml_object, &mut kt_file, true);
            },
            ObjectType::UNDECIDED => {
                return Err(GenerateError::undecided());
            },
        }
        Ok(kt_file)
    }

    fn extension(&self) -> (r: &'static str)
        ensures
            r@ == "kt"@,
    {
        "kt"
    }
}

} // verus!
