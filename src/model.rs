//! The schema model: objects, their fields, and the views proofs speak of.

use vstd::prelude::*;

verus! {

/// The kind of declaration an object block introduces.
#[allow(non_camel_case_types)]
#[derive(Debug, Clone, Copy, PartialEq, Eq, Structural)]
pub enum ObjectType {
    ENUM,
    CLASS,
    STRUCT,
    /// No keyword has matched yet; never handed to a generator.
    UNDECIDED,
}

/// A per-field qualifier.
#[allow(non_camel_case_types)]
#[derive(Debug, Clone, Copy, PartialEq, Eq, Structural)]
pub enum VariableModifier {
    CONST,
    MUT,
    STATIC,
    OPTIONAL,
}

/// The access qualifier of a field; `PRIVATE` when the source gives none.
#[allow(non_camel_case_types)]
#[derive(Debug, Clone, Copy, PartialEq, Eq, Structural)]
pub enum VariableVisibility {
    PRIVATE,
    PUBLIC,
    PROTECTED,
}

/// One field (or enumerant) of an object.
#[derive(Debug, Clone)]
pub struct Variable {
    pub var_mod: Vec<VariableModifier>,
    pub visibility: VariableVisibility,
    pub var_type: String,
    pub name: String,
}

/// Mathematical model of a `Variable`.
pub struct VarModel {
    pub mods: Seq<VariableModifier>,
    pub vis: VariableVisibility,
    pub ty: Seq<char>,
    pub name: Seq<char>,
}

impl View for Variable {
    type V = VarModel;

    open spec fn view(&self) -> VarModel {
        VarModel { mods: self.var_mod@, vis: self.visibility, ty: self.var_type@, name: self.name@ }
    }
}

/// One `class`, `enum` or `struct` declaration with its fields in source order.
#[derive(Debug, Clone)]
pub struct OmlObject {
    pub oml_type: ObjectType,
    pub name: String,
    pub variables: Vec<Variable>,
}

/// Mathematical model of an `OmlObject`.
pub struct ObjModel {
    pub kind: ObjectType,
    pub name: Seq<char>,
    pub vars: Seq<VarModel>,
}

pub open spec fn vars_view(vs: Seq<Variable>) -> Seq<VarModel> {
    vs.map_values(|v: Variable| v@)
}

impl View for OmlObject {
    type V = ObjModel;

    open spec fn view(&self) -> ObjModel {
        ObjModel { kind: self.oml_type, name: self.name@, vars: vars_view(self.variables@) }
    }
}

/// The objects of one schema file, in source order.
#[derive(Debug, Clone)]
pub struct OmlFile {
    pub file_name: String,
    pub objects: Vec<OmlObject>,
}

impl VarModel {
    pub open spec fn has(self, m: VariableModifier) -> bool {
        self.mods.contains(m)
    }

    /// Const without Mut: the field never gets a mutator.
    pub open spec fn is_const(self) -> bool {
        self.has(VariableModifier::CONST) && !self.has(VariableModifier::MUT)
    }

    pub open spec fn is_static(self) -> bool {
        self.has(VariableModifier::STATIC)
    }

    pub open spec fn is_optional(self) -> bool {
        self.has(VariableModifier::OPTIONAL)
    }
}

/// Whether `mods` holds `m`.
pub fn has_modifier(mods: &Vec<VariableModifier>, m: VariableModifier) -> (r: bool)
    ensures
        r == mods@.contains(m),
{
    let mut i: usize = 0;
    while i < mods.len()
        invariant
            i <= mods.len(),
            forall|j: int| 0 <= j < i ==> mods@[j] != m,
        decreases mods.len() - i,
    {
        if mods[i] == m {
            return true;
        }
        i = i + 1;
    }
    false
}

impl Variable {
    /// Const without Mut.
    pub fn is_const(&self) -> (r: bool)
        ensures
            r == self@.is_const(),
    {
        has_modifier(&self.var_mod, VariableModifier::CONST) && !has_modifier(
            &self.var_mod,
            VariableModifier::MUT,
        )
    }

    pub fn is_static(&self) -> (r: bool)
        ensures
            r == self@.is_static(),
    {
        has_modifier(&self.var_mod, VariableModifier::STATIC)
    }

    pub fn is_optional(&self) -> (r: bool)
        ensures
            r == self@.is_optional(),
    {
        has_modifier(&self.var_mod, VariableModifier::OPTIONAL)
    }
}

} // verus!
