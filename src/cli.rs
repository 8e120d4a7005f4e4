//! Command-line settings and the backends they select.

use vstd::prelude::*;
use crate::cpp::CppGenerator;
use crate::generate::Generator;
use crate::kotlin::KotlinGenerator;
use crate::python::PythonGenerator;

verus! {

/// The command-line settings: inputs, output directory, traversal depth and
/// the selected target languages.
pub struct OmlCli {
    /// Names of the schema files or directories to read.
    pub inputs: Option<Vec<String>>,
    pub output: String,
    /// Whether directories are searched recursively.
    pub recursive: bool,
    pub depth: usize,
    pub use_data_class: bool,
    pub cpp: bool,
    pub python: bool,
    pub java: bool,
    pub kotlin: bool,
    pub rust: bool,
    pub typescript: bool,
}

/// The backends the flags select, in the order C++, Python, Kotlin; Java,
/// Rust and TypeScript have no backend yet.
pub open spec fn selected_generators(c: OmlCli) -> Seq<Generator> {
    (if c.cpp {
        seq![Generator::Cpp(CppGenerator)]
    } else {
        Seq::<Generator>::empty()
    }) + (if c.python {
        seq![Generator::Python(PythonGenerator { use_data_class: c.use_data_class })]
    } else {
        Seq::<Generator>::empty()
    }) + (if c.kotlin {
        seq![Generator::Kotlin(KotlinGenerator { use_data_class: c.use_data_class })]
    } else {
        Seq::<Generator>::empty()
    })
}

impl OmlCli {
    pub fn has_inputs(&self) -> (r: bool)
        ensures
            r == self.inputs is Some,
    {
        self.inputs.is_some()
    }

    /// The backends the language flags select.
    pub fn get_generators(&self) -> (r: Vec<Generator>)
        ensures
            r@ == selected_generators(*self),
    {
        let mut generators: Vec<Generator> = Vec::new();
        if self.cpp {
            generators.push(Generator::Cpp(CppGenerator));
        }
        if self.python {
            generators.push(Generator::Python(PythonGenerator::new(self.use_data_class)));
        }
        if self.kotlin {
            generators.push(Generator::Kotlin(KotlinGenerator::new(self.use_data_class)));
        }
        assert(generators@ =~= selected_generators(*self));
        generators
    }
}

} // verus!
