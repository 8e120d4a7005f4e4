//! Front end and code generators for OML, a small schema language of
//! classes, structs and enums with typed, visibility- and
//! modifier-qualified fields.

pub mod names;
pub mod model;
pub mod text;
pub mod errors;
pub mod declaration;
pub mod scanner;
pub mod object;
pub mod emit;
pub mod generate;
pub mod cpp;
pub mod kotlin;
pub mod python;
pub mod cpp_plain;
pub mod cli;
pub mod file;
