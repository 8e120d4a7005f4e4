use oml::cpp::{self, CppGenerator};
use oml::cpp_plain;
use oml::errors::GenerateError;
use oml::generate::Generate;
use oml::model::{ObjectType, OmlObject, Variable, VariableModifier, VariableVisibility};

fn header_of(oml_object: &OmlObject, file_name: &str) -> Result<String, GenerateError> {
    CppGenerator.generate(oml_object, file_name)
}

#[test]
fn oml_cpp_test_generate_enum_basic() {
    // header backend with generated members
    {
        let oml_object = OmlObject {
            oml_type: ObjectType::ENUM,
            name: "Color".to_string(),
            variables: vec![
                Variable {
                    var_mod: vec![],
                    visibility: VariableVisibility::PUBLIC,
                    var_type: "".to_string(),
                    name: "Red".to_string(),
                },
                Variable {
                    var_mod: vec![],
                    visibility: VariableVisibility::PUBLIC,
                    var_type: "".to_string(),
                    name: "Green".to_string(),
                },
                Variable {
                    var_mod: vec![],
                    visibility: VariableVisibility::PUBLIC,
                    var_type: "".to_string(),
                    name: "Blue".to_string(),
                },
            ],
        };

        let mut output = String::new();
        cpp::generate_enum(&oml_object, &mut output).unwrap();

        assert!(output.contains("enum class Color {"));
        assert!(output.contains("\tRED,"));
        assert!(output.contains("\tGREEN,"));
        assert!(output.contains("\tBLUE"));
        assert!(!output.contains("BLUE,"));
        assert!(output.contains("};"));
    }
    // compact header form
    {
        let oml_object = OmlObject {
            oml_type: ObjectType::ENUM,
            name: "Color".to_string(),
            variables: vec![
                Variable {
                    var_mod: vec![],
                    visibility: VariableVisibility::PUBLIC,
                    var_type: "".to_string(),
                    name: "Red".to_string(),
                },
                Variable {
                    var_mod: vec![],
                    visibility: VariableVisibility::PUBLIC,
                    var_type: "".to_string(),
                    name: "Green".to_string(),
                },
                Variable {
                    var_mod: vec![],
                    visibility: VariableVisibility::PUBLIC,
                    var_type: "".to_string(),
                    name: "Blue".to_string(),
                },
            ],
        };

        let mut output = String::new();
        cpp_plain::generate_enum(&oml_object, &mut output).unwrap();

        assert!(output.contains("enum class Color {"));
        assert!(output.contains("\tRED,"));
        assert!(output.contains("\tGREEN,"));
        assert!(output.contains("\tBLUE"));
        assert!(!output.contains("BLUE,"));
        assert!(output.contains("};"));
    }
}

#[test]
fn oml_cpp_test_generate_enum_single_variant() {
    // header backend with generated members
    {
        let oml_object = OmlObject {
            oml_type: ObjectType::ENUM,
            name: "Status".to_string(),
            variables: vec![
                Variable {
                    var_mod: vec![],
                    visibility: VariableVisibility::PUBLIC,
                    var_type: "".to_string(),
                    name: "Active".to_string(),
                },
            ],
        };

        let mut output = String::new();
        cpp::generate_enum(&oml_object, &mut output).unwrap();

        assert!(output.contains("enum class Status {"));
        assert!(output.contains("\tACTIVE"));
        assert!(!output.contains("ACTIVE,"));
        assert!(output.contains("};"));
    }
    // compact header form
    {
        let oml_object = OmlObject {
            oml_type: ObjectType::ENUM,
            name: "Status".to_string(),
            variables: vec![
                Variable {
                    var_mod: vec![],
                    visibility: VariableVisibility::PUBLIC,
                    var_type: "".to_string(),
                    name: "Active".to_string(),
                },
            ],
        };

        let mut output = String::new();
        cpp_plain::generate_enum(&oml_object, &mut output).unwrap();

        assert!(output.contains("enum class Status {"));
        assert!(output.contains("\tACTIVE"));
        assert!(!output.contains("ACTIVE,"));
        assert!(output.contains("};"));
    }
}

#[test]
fn oml_cpp_test_generate_enum_empty() {
    // header backend with generated members
    {
        let oml_object = OmlObject {
            oml_type: ObjectType::ENUM,
            name: "Empty".to_string(),
            variables: vec![],
        };

        let mut output = String::new();
        cpp::generate_enum(&oml_object, &mut output).unwrap();

        assert!(output.contains("enum class Empty {"));
        assert!(output.contains("};"));
    }
    // compact header form
    {
        let oml_object = OmlObject {
            oml_type: ObjectType::ENUM,
            name: "Empty".to_string(),
            variables: vec![],
        };

        let mut output = String::new();
        cpp_plain::generate_enum(&oml_object, &mut output).unwrap();

        assert!(output.contains("enum class Empty {"));
        assert!(output.contains("};"));
    }
}

#[test]
fn oml_cpp_test_generate_class_with_all_visibility_levels() {
    // header backend with generated members
    {
        let oml_object = OmlObject {
            oml_type: ObjectType::CLASS,
            name: "TestClass".to_string(),
            variables: vec![
                Variable {
                    var_mod: vec![],
                    visibility: VariableVisibility::PUBLIC,
                    var_type: "int32".to_string(),
                    name: "public_var".to_string(),
                },
                Variable {
                    var_mod: vec![],
                    visibility: VariableVisibility::PRIVATE,
                    var_type: "int32".to_string(),
                    name: "private_var".to_string(),
                },
                Variable {
                    var_mod: vec![],
                    visibility: VariableVisibility::PROTECTED,
                    var_type: "int32".to_string(),
                    name: "protected_var".to_string(),
                },
            ],
        };

        let mut output = String::new();
        cpp::generate_class_or_struct(&oml_object, &mut output).unwrap();

        println!("{}", output);

        assert!(output.contains("class TestClass {"));
        assert!(output.contains("private:"));
        assert!(output.contains("protected:"));
        assert!(output.contains("public:"));
        assert!(output.contains("};"));
    }
    // compact header form
    {
        let oml_object = OmlObject {
            oml_type: ObjectType::CLASS,
            name: "TestClass".to_string(),
            variables: vec![
                Variable {
                    var_mod: vec![],
                    visibility: VariableVisibility::PUBLIC,
                    var_type: "int32".to_string(),
                    name: "public_var".to_string(),
                },
                Variable {
                    var_mod: vec![],
                    visibility: VariableVisibility::PRIVATE,
                    var_type: "int32".to_string(),
                    name: "private_var".to_string(),
                },
                Variable {
                    var_mod: vec![],
                    visibility: VariableVisibility::PROTECTED,
                    var_type: "int32".to_string(),
                    name: "protected_var".to_string(),
                },
            ],
        };

        let mut output = String::new();
        cpp_plain::generate_class_or_struct(&oml_object, &mut output).unwrap();

        println!("{}", output);

        assert!(output.contains("class TestClass {"));
        assert!(output.contains("private:"));
        assert!(output.contains("protected:"));
        assert!(output.contains("public:"));
        assert!(output.contains("};"));
    }
}

#[test]
fn oml_cpp_test_generate_struct() {
    // header backend with generated members
    {
        let oml_object = OmlObject {
            oml_type: ObjectType::STRUCT,
            name: "Point".to_string(),
            variables: vec![
                Variable {
                    var_mod: vec![],
                    visibility: VariableVisibility::PUBLIC,
                    var_type: "float".to_string(),
                    name: "x".to_string(),
                },
                Variable {
                    var_mod: vec![],
                    visibility: VariableVisibility::PUBLIC,
                    var_type: "float".to_string(),
                    name: "y".to_string(),
                },
            ],
        };

        let mut output = String::new();
        cpp::generate_class_or_struct(&oml_object, &mut output).unwrap();

        assert!(output.contains("struct Point {"));
        assert!(output.contains("float"));
        assert!(output.contains("x"));
        assert!(output.contains("y"));
        assert!(output.contains("};"));
    }
    // compact header form
    {
        let oml_object = OmlObject {
            oml_type: ObjectType::STRUCT,
            name: "Point".to_string(),
            variables: vec![
                Variable {
                    var_mod: vec![],
                    visibility: VariableVisibility::PUBLIC,
                    var_type: "float".to_string(),
                    name: "x".to_string(),
                },
                Variable {
                    var_mod: vec![],
                    visibility: VariableVisibility::PUBLIC,
                    var_type: "float".to_string(),
                    name: "y".to_string(),
                },
            ],
        };

        let mut output = String::new();
        cpp_plain::generate_class_or_struct(&oml_object, &mut output).unwrap();

        assert!(output.contains("struct Point {"));
        assert!(output.contains("float"));
        assert!(output.contains("x"));
        assert!(output.contains("y"));
        assert!(output.contains("};"));
    }
}

#[test]
fn oml_cpp_test_generate_class_empty() {
    // header backend with generated members
    {
        let oml_object = OmlObject {
            oml_type: ObjectType::CLASS,
            name: "EmptyClass".to_string(),
            variables: vec![],
        };

        let mut output = String::new();
        cpp::generate_class_or_struct(&oml_object, &mut output).unwrap();

        assert!(output.contains("class EmptyClass {"));
        assert!(output.contains("};"));
    }
    // compact header form
    {
        let oml_object = OmlObject {
            oml_type: ObjectType::CLASS,
            name: "EmptyClass".to_string(),
            variables: vec![],
        };

        let mut output = String::new();
        cpp_plain::generate_class_or_struct(&oml_object, &mut output).unwrap();

        assert!(output.contains("class EmptyClass {"));
        assert!(output.contains("};"));
    }
}

#[test]
fn oml_cpp_test_static_modifier() {
    // header backend with generated members
    {
        let var = Variable {
            var_mod: vec![VariableModifier::STATIC],
            visibility: VariableVisibility::PUBLIC,
            var_type: "int32".to_string(),
            name: "count".to_string(),
        };

        let mut output = String::new();
        cpp::convert_modifiers_and_type(&var, &mut output).unwrap();

        assert!(output.contains("static"));
        assert!(output.contains("int32_t"));
    }
    // compact header form
    {
        let var = Variable {
            var_mod: vec![VariableModifier::STATIC],
            visibility: VariableVisibility::PUBLIC,
            var_type: "int32".to_string(),
            name: "count".to_string(),
        };

        let mut output = String::new();
        cpp_plain::convert_modifiers_and_type(&var, &mut output).unwrap();

        assert!(output.contains("static"));
        assert!(output.contains("int32_t"));
    }
}

#[test]
fn oml_cpp_test_const_modifier() {
    // header backend with generated members
    {
        let var = Variable {
            var_mod: vec![VariableModifier::CONST],
            visibility: VariableVisibility::PUBLIC,
            var_type: "int32".to_string(),
            name: "MAX_SIZE".to_string(),
        };

        let mut output = String::new();
        cpp::convert_modifiers_and_type(&var, &mut output).unwrap();

        assert!(output.contains("const"));
        assert!(output.contains("int32_t"));
    }
    // compact header form
    {
        let var = Variable {
            var_mod: vec![VariableModifier::CONST],
            visibility: VariableVisibility::PUBLIC,
            var_type: "int32".to_string(),
            name: "MAX_SIZE".to_string(),
        };

        let mut output = String::new();
        cpp_plain::convert_modifiers_and_type(&var, &mut output).unwrap();

        assert!(output.contains("const"));
        assert!(output.contains("int32_t"));
    }
}

#[test]
fn oml_cpp_test_const_static_modifiers_combined() {
    // header backend with generated members
    {
        let var = Variable {
            var_mod: vec![VariableModifier::CONST, VariableModifier::STATIC],
            visibility: VariableVisibility::PUBLIC,
            var_type: "int32".to_string(),
            name: "MAX_VALUE".to_string(),
        };

        let mut output = String::new();
        cpp::convert_modifiers_and_type(&var, &mut output).unwrap();

        assert!(output.contains("static"));
        assert!(output.contains("const"));
        assert!(output.contains("int32_t"));

        let static_pos = output.find("static").unwrap();
        let const_pos = output.find("const").unwrap();
        assert!(static_pos < const_pos);
    }
    // compact header form
    {
        let var = Variable {
            var_mod: vec![VariableModifier::CONST, VariableModifier::STATIC],
            visibility: VariableVisibility::PUBLIC,
            var_type: "int32".to_string(),
            name: "MAX_VALUE".to_string(),
        };

        let mut output = String::new();
        cpp_plain::convert_modifiers_and_type(&var, &mut output).unwrap();

        assert!(output.contains("static"));
        assert!(output.contains("const"));
        assert!(output.contains("int32_t"));

        let static_pos = output.find("static").unwrap();
        let const_pos = output.find("const").unwrap();
        assert!(static_pos < const_pos);
    }
}

#[test]
fn oml_cpp_test_mut_modifier_overrides_const() {
    // header backend with generated members
    {
        let var = Variable {
            var_mod: vec![VariableModifier::CONST, VariableModifier::MUT],
            visibility: VariableVisibility::PUBLIC,
            var_type: "int32".to_string(),
            name: "value".to_string(),
        };

        let mut output = String::new();
        cpp::convert_modifiers_and_type(&var, &mut output).unwrap();

        assert!(!output.contains("const"));
        assert!(output.contains("int32_t"));
    }
    // compact header form
    {
        let var = Variable {
            var_mod: vec![VariableModifier::CONST, VariableModifier::MUT],
            visibility: VariableVisibility::PUBLIC,
            var_type: "int32".to_string(),
            name: "value".to_string(),
        };

        let mut output = String::new();
        cpp_plain::convert_modifiers_and_type(&var, &mut output).unwrap();

        assert!(!output.contains("const"));
        assert!(output.contains("int32_t"));
    }
}

#[test]
fn oml_cpp_test_optional_modifier() {
    // header backend with generated members
    {
        let var = Variable {
            var_mod: vec![VariableModifier::OPTIONAL],
            visibility: VariableVisibility::PUBLIC,
            var_type: "string".to_string(),
            name: "nickname".to_string(),
        };

        let mut output = String::new();
        cpp::convert_modifiers_and_type(&var, &mut output).unwrap();

        assert!(output.contains("std::optional<std::string>"));
    }
    // compact header form
    {
        let var = Variable {
            var_mod: vec![VariableModifier::OPTIONAL],
            visibility: VariableVisibility::PUBLIC,
            var_type: "string".to_string(),
            name: "nickname".to_string(),
        };

        let mut output = String::new();
        cpp_plain::convert_modifiers_and_type(&var, &mut output).unwrap();

        assert!(output.contains("std::optional<std::string>"));
    }
}

#[test]
fn oml_cpp_test_optional_with_static() {
    // header backend with generated members
    {
        let var = Variable {
            var_mod: vec![VariableModifier::OPTIONAL, VariableModifier::STATIC],
            visibility: VariableVisibility::PUBLIC,
            var_type: "int32".to_string(),
            name: "cache".to_string(),
        };

        let mut output = String::new();
        cpp::convert_modifiers_and_type(&var, &mut output).unwrap();

        assert!(output.contains("static"));
        assert!(output.contains("std::optional<int32_t>"));
    }
    // compact header form
    {
        let var = Variable {
            var_mod: vec![VariableModifier::OPTIONAL, VariableModifier::STATIC],
            visibility: VariableVisibility::PUBLIC,
            var_type: "int32".to_string(),
            name: "cache".to_string(),
        };

        let mut output = String::new();
        cpp_plain::convert_modifiers_and_type(&var, &mut output).unwrap();

        assert!(output.contains("static"));
        assert!(output.contains("std::optional<int32_t>"));
    }
}

#[test]
fn oml_cpp_test_optional_with_const() {
    // header backend with generated members
    {
        let var = Variable {
            var_mod: vec![VariableModifier::OPTIONAL, VariableModifier::CONST],
            visibility: VariableVisibility::PUBLIC,
            var_type: "string".to_string(),
            name: "config".to_string(),
        };

        let mut output = String::new();
        cpp::convert_modifiers_and_type(&var, &mut output).unwrap();

        assert!(output.contains("const"));
        assert!(output.contains("std::optional<std::string>"));
    }
    // compact header form
    {
        let var = Variable {
            var_mod: vec![VariableModifier::OPTIONAL, VariableModifier::CONST],
            visibility: VariableVisibility::PUBLIC,
            var_type: "string".to_string(),
            name: "config".to_string(),
        };

        let mut output = String::new();
        cpp_plain::convert_modifiers_and_type(&var, &mut output).unwrap();

        assert!(output.contains("const"));
        assert!(output.contains("std::optional<std::string>"));
    }
}

#[test]
fn oml_cpp_test_convert_all_integer_types() {
    // header backend with generated members
    {
        assert_eq!(cpp::convert_type("int8"), "int8_t");
        assert_eq!(cpp::convert_type("int16"), "int16_t");
        assert_eq!(cpp::convert_type("int32"), "int32_t");
        assert_eq!(cpp::convert_type("int64"), "int64_t");
        assert_eq!(cpp::convert_type("uint8"), "uint8_t");
        assert_eq!(cpp::convert_type("uint16"), "uint16_t");
        assert_eq!(cpp::convert_type("uint32"), "uint32_t");
        assert_eq!(cpp::convert_type("uint64"), "uint64_t");
    }
    // compact header form
    {
        assert_eq!(cpp_plain::convert_type("int8"), "int8_t");
        assert_eq!(cpp_plain::convert_type("int16"), "int16_t");
        assert_eq!(cpp_plain::convert_type("int32"), "int32_t");
        assert_eq!(cpp_plain::convert_type("int64"), "int64_t");
        assert_eq!(cpp_plain::convert_type("uint8"), "uint8_t");
        assert_eq!(cpp_plain::convert_type("uint16"), "uint16_t");
        assert_eq!(cpp_plain::convert_type("uint32"), "uint32_t");
        assert_eq!(cpp_plain::convert_type("uint64"), "uint64_t");
    }
}

#[test]
fn oml_cpp_test_convert_floating_point_types() {
    // header backend with generated members
    {
        assert_eq!(cpp::convert_type("float"), "float");
        assert_eq!(cpp::convert_type("double"), "double");
    }
    // compact header form
    {
        assert_eq!(cpp_plain::convert_type("float"), "float");
        assert_eq!(cpp_plain::convert_type("double"), "double");
    }
}

#[test]
fn oml_cpp_test_convert_other_basic_types() {
    // header backend with generated members
    {
        assert_eq!(cpp::convert_type("bool"), "bool");
        assert_eq!(cpp::convert_type("char"), "char");
        assert_eq!(cpp::convert_type("string"), "std::string");
    }
    // compact header form
    {
        assert_eq!(cpp_plain::convert_type("bool"), "bool");
        assert_eq!(cpp_plain::convert_type("char"), "char");
        assert_eq!(cpp_plain::convert_type("string"), "std::string");
    }
}

#[test]
fn oml_cpp_test_convert_unknown_type() {
    // header backend with generated members
    {
        // user-defined types pass through unchanged
        assert_eq!(cpp::convert_type("CustomType"), "CustomType");
        assert_eq!(cpp::convert_type("UnknownType"), "UnknownType");
        assert_eq!(cpp::convert_type(""), "");
    }
    // compact header form
    {
        // user-defined types pass through unchanged
        assert_eq!(cpp_plain::convert_type("CustomType"), "CustomType");
        assert_eq!(cpp_plain::convert_type("UnknownType"), "UnknownType");
        assert_eq!(cpp_plain::convert_type(""), "");
    }
}

#[test]
fn oml_cpp_test_oml_to_cpp_with_enum() {
    // header backend with generated members
    {
        let oml_object = OmlObject {
            oml_type: ObjectType::ENUM,
            name: "Color".to_string(),
            variables: vec![
                Variable {
                    var_mod: vec![],
                    visibility: VariableVisibility::PUBLIC,
                    var_type: "".to_string(),
                    name: "Red".to_string(),
                },
                Variable {
                    var_mod: vec![],
                    visibility: VariableVisibility::PUBLIC,
                    var_type: "".to_string(),
                    name: "Blue".to_string(),
                },
            ],
        };

        let result = header_of(&oml_object, "Color").unwrap();

        assert!(result.contains("#ifndef COLOR_H"));
        assert!(result.contains("#define COLOR_H"));
        assert!(result.contains("#endif // COLOR_H"));

        assert!(result.contains("// This file has been generated from Color.oml"));

        assert!(result.contains("#include <cstdint>"));
        assert!(result.contains("#include <string>"));
        assert!(result.contains("#include <optional>"));

        assert!(result.contains("enum class Color {"));
    }
    // compact header form
    {
        let oml_object = OmlObject {
            oml_type: ObjectType::ENUM,
            name: "Color".to_string(),
            variables: vec![
                Variable {
                    var_mod: vec![],
                    visibility: VariableVisibility::PUBLIC,
                    var_type: "".to_string(),
                    name: "Red".to_string(),
                },
                Variable {
                    var_mod: vec![],
                    visibility: VariableVisibility::PUBLIC,
                    var_type: "".to_string(),
                    name: "Blue".to_string(),
                },
            ],
        };

        let result = cpp_plain::oml_to_cpp(&oml_object, &"Color".to_string()).unwrap();

        assert!(result.contains("#ifndef COLOR_H"));
        assert!(result.contains("#define COLOR_H"));
        assert!(result.contains("#endif // COLOR_H"));

        assert!(result.contains("// This file has been generated from Color.oml"));

        assert!(result.contains("#include <cstdint>"));
        assert!(result.contains("#include <string>"));
        assert!(result.contains("#include <optional>"));

        assert!(result.contains("enum class Color {"));
    }
}

#[test]
fn oml_cpp_test_oml_to_cpp_with_class() {
    // header backend with generated members
    {
        let oml_object = OmlObject {
            oml_type: ObjectType::CLASS,
            name: "Person".to_string(),
            variables: vec![
                Variable {
                    var_mod: vec![],
                    visibility: VariableVisibility::PUBLIC,
                    var_type: "string".to_string(),
                    name: "name".to_string(),
                },
                Variable {
                    var_mod: vec![],
                    visibility: VariableVisibility::PRIVATE,
                    var_type: "int32".to_string(),
                    name: "age".to_string(),
                },
            ],
        };

        let result = header_of(&oml_object, "Person").unwrap();

        assert!(result.contains("#ifndef PERSON_H"));
        assert!(result.contains("#define PERSON_H"));
        assert!(result.contains("class Person {"));
        assert!(result.contains("std::string"));
        assert!(result.contains("int32_t"));
        assert!(result.contains("#endif // PERSON_H"));
    }
    // compact header form
    {
        let oml_object = OmlObject {
            oml_type: ObjectType::CLASS,
            name: "Person".to_string(),
            variables: vec![
                Variable {
                    var_mod: vec![],
                    visibility: VariableVisibility::PUBLIC,
                    var_type: "string".to_string(),
                    name: "name".to_string(),
                },
                Variable {
                    var_mod: vec![],
                    visibility: VariableVisibility::PRIVATE,
                    var_type: "int32".to_string(),
                    name: "age".to_string(),
                },
            ],
        };

        let result = cpp_plain::oml_to_cpp(&oml_object, &"Person".to_string()).unwrap();

        assert!(result.contains("#ifndef PERSON_H"));
        assert!(result.contains("#define PERSON_H"));
        assert!(result.contains("class Person {"));
        assert!(result.contains("std::string"));
        assert!(result.contains("int32_t"));
        assert!(result.contains("#endif // PERSON_H"));
    }
}

#[test]
fn oml_cpp_test_oml_to_cpp_header_guard_uppercase() {
    // header backend with generated members
    {
        let oml_object = OmlObject {
            oml_type: ObjectType::CLASS,
            name: "MyClass".to_string(),
            variables: vec![],
        };

        let result = header_of(&oml_object, "my_class").unwrap();

        assert!(result.contains("#ifndef MY_CLASS_H"));
        assert!(result.contains("#define MY_CLASS_H"));
        assert!(result.contains("#endif // MY_CLASS_H"));
    }
    // compact header form
    {
        let oml_object = OmlObject {
            oml_type: ObjectType::CLASS,
            name: "MyClass".to_string(),
            variables: vec![],
        };

        let result = cpp_plain::oml_to_cpp(&oml_object, &"my_class".to_string()).unwrap();

        assert!(result.contains("#ifndef MY_CLASS_H"));
        assert!(result.contains("#define MY_CLASS_H"));
        assert!(result.contains("#endif // MY_CLASS_H"));
    }
}

#[test]
fn oml_cpp_test_oml_to_cpp_with_undecided_type_fails() {
    // header backend with generated members
    {
        let oml_object = OmlObject {
            oml_type: ObjectType::UNDECIDED,
            name: "Test".to_string(),
            variables: vec![],
        };

        let result = header_of(&oml_object, "Test");

        assert!(result.is_err());
    }
    // compact header form
    {
        let oml_object = OmlObject {
            oml_type: ObjectType::UNDECIDED,
            name: "Test".to_string(),
            variables: vec![],
        };

        let result = cpp_plain::oml_to_cpp(&oml_object, &"Test".to_string());

        assert!(result.is_err());
    }
}

#[test]
fn oml_cpp_test_variables_grouped_by_visibility() {
    // header backend with generated members
    {
        let oml_object = OmlObject {
            oml_type: ObjectType::CLASS,
            name: "Test".to_string(),
            variables: vec![
                Variable {
                    var_mod: vec![],
                    visibility: VariableVisibility::PUBLIC,
                    var_type: "int32".to_string(),
                    name: "pub1".to_string(),
                },
                Variable {
                    var_mod: vec![],
                    visibility: VariableVisibility::PRIVATE,
                    var_type: "int32".to_string(),
                    name: "priv1".to_string(),
                },
                Variable {
                    var_mod: vec![],
                    visibility: VariableVisibility::PUBLIC,
                    var_type: "int32".to_string(),
                    name: "pub2".to_string(),
                },
            ],
        };

        let mut output = String::new();
        cpp::generate_class_or_struct(&oml_object, &mut output).unwrap();

        let public_pos = output.find("public:").unwrap();
        let private_pos = output.find("private:").unwrap();
        assert!(public_pos < private_pos);

        let priv1_decl = output.find("\tint32_t priv1;").unwrap();
        assert!(priv1_decl > private_pos);
    }
    // compact header form
    {
        let oml_object = OmlObject {
            oml_type: ObjectType::CLASS,
            name: "Test".to_string(),
            variables: vec![
                Variable {
                    var_mod: vec![],
                    visibility: VariableVisibility::PUBLIC,
                    var_type: "int32".to_string(),
                    name: "pub1".to_string(),
                },
                Variable {
                    var_mod: vec![],
                    visibility: VariableVisibility::PRIVATE,
                    var_type: "int32".to_string(),
                    name: "priv1".to_string(),
                },
                Variable {
                    var_mod: vec![],
                    visibility: VariableVisibility::PUBLIC,
                    var_type: "int32".to_string(),
                    name: "pub2".to_string(),
                },
            ],
        };

        let mut output = String::new();
        cpp_plain::generate_class_or_struct(&oml_object, &mut output).unwrap();

        let private_pos = output.find("private:").unwrap();
        let priv1_pos = output.find("priv1").unwrap();
        let _pub1_pos = output.find("pub1").unwrap();
        let _pub2_pos = output.find("pub2").unwrap();

        assert!(private_pos < priv1_pos);

    }
}

#[test]
fn oml_cpp_test_only_private_variables() {
    // header backend with generated members
    {
        let oml_object = OmlObject {
            oml_type: ObjectType::CLASS,
            name: "PrivateOnly".to_string(),
            variables: vec![
                Variable {
                    var_mod: vec![],
                    visibility: VariableVisibility::PRIVATE,
                    var_type: "int32".to_string(),
                    name: "var1".to_string(),
                },
                Variable {
                    var_mod: vec![],
                    visibility: VariableVisibility::PRIVATE,
                    var_type: "int32".to_string(),
                    name: "var2".to_string(),
                },
            ],
        };

        let mut output = String::new();
        cpp::generate_class_or_struct(&oml_object, &mut output).unwrap();

        assert!(output.contains("private:"));
        assert!(output.contains("public:"));
        assert!(!output.contains("protected:"));
    }
    // compact header form
    {
        let oml_object = OmlObject {
            oml_type: ObjectType::CLASS,
            name: "PrivateOnly".to_string(),
            variables: vec![
                Variable {
                    var_mod: vec![],
                    visibility: VariableVisibility::PRIVATE,
                    var_type: "int32".to_string(),
                    name: "var1".to_string(),
                },
                Variable {
                    var_mod: vec![],
                    visibility: VariableVisibility::PRIVATE,
                    var_type: "int32".to_string(),
                    name: "var2".to_string(),
                },
            ],
        };

        let mut output = String::new();
        cpp_plain::generate_class_or_struct(&oml_object, &mut output).unwrap();

        assert!(output.contains("private:"));
        assert!(!output.contains("public:"));
        assert!(!output.contains("protected:"));
    }
}

#[test]
fn oml_cpp_test_only_public_variables() {
    // header backend with generated members
    {
        let oml_object = OmlObject {
            oml_type: ObjectType::CLASS,
            name: "PublicOnly".to_string(),
            variables: vec![
                Variable {
                    var_mod: vec![],
                    visibility: VariableVisibility::PUBLIC,
                    var_type: "int32".to_string(),
                    name: "var1".to_string(),
                },
            ],
        };

        let mut output = String::new();
        cpp::generate_class_or_struct(&oml_object, &mut output).unwrap();

        assert!(!output.contains("private:"));
        assert!(!output.contains("protected:"));
    }
    // compact header form
    {
        let oml_object = OmlObject {
            oml_type: ObjectType::CLASS,
            name: "PublicOnly".to_string(),
            variables: vec![
                Variable {
                    var_mod: vec![],
                    visibility: VariableVisibility::PUBLIC,
                    var_type: "int32".to_string(),
                    name: "var1".to_string(),
                },
            ],
        };

        let mut output = String::new();
        cpp_plain::generate_class_or_struct(&oml_object, &mut output).unwrap();

        assert!(!output.contains("private:"));
        assert!(!output.contains("protected:"));
    }
}

#[test]
fn oml_cpp_test_complex_class_with_all_features() {
    // header backend with generated members
    {
        let oml_object = OmlObject {
            oml_type: ObjectType::CLASS,
            name: "ComplexClass".to_string(),
            variables: vec![
                Variable {
                    var_mod: vec![VariableModifier::STATIC, VariableModifier::CONST],
                    visibility: VariableVisibility::PUBLIC,
                    var_type: "int32".to_string(),
                    name: "MAX_SIZE".to_string(),
                },
                Variable {
                    var_mod: vec![VariableModifier::OPTIONAL],
                    visibility: VariableVisibility::PRIVATE,
                    var_type: "string".to_string(),
                    name: "nickname".to_string(),
                },
                Variable {
                    var_mod: vec![],
                    visibility: VariableVisibility::PROTECTED,
                    var_type: "float".to_string(),
                    name: "value".to_string(),
                },
            ],
        };

        let result = header_of(&oml_object, "ComplexClass").unwrap();

        assert!(result.contains("static const int32_t"));
        assert!(result.contains("std::optional<std::string>"));
        assert!(result.contains("float"));
        assert!(result.contains("private:"));
        assert!(result.contains("protected:"));
    }
    // compact header form
    {
        let oml_object = OmlObject {
            oml_type: ObjectType::CLASS,
            name: "ComplexClass".to_string(),
            variables: vec![
                Variable {
                    var_mod: vec![VariableModifier::STATIC, VariableModifier::CONST],
                    visibility: VariableVisibility::PUBLIC,
                    var_type: "int32".to_string(),
                    name: "MAX_SIZE".to_string(),
                },
                Variable {
                    var_mod: vec![VariableModifier::OPTIONAL],
                    visibility: VariableVisibility::PRIVATE,
                    var_type: "string".to_string(),
                    name: "nickname".to_string(),
                },
                Variable {
                    var_mod: vec![],
                    visibility: VariableVisibility::PROTECTED,
                    var_type: "float".to_string(),
                    name: "value".to_string(),
                },
            ],
        };

        let result = cpp_plain::oml_to_cpp(&oml_object, &"ComplexClass".to_string()).unwrap();

        assert!(result.contains("static const int32_t"));
        assert!(result.contains("std::optional<std::string>"));
        assert!(result.contains("float"));
        assert!(result.contains("private:"));
        assert!(result.contains("protected:"));
    }
}

#[test]
fn oml_cpp_test_multiple_variables_same_visibility() {
    // header backend with generated members
    {
        let oml_object = OmlObject {
            oml_type: ObjectType::CLASS,
            name: "MultiVar".to_string(),
            variables: vec![
                Variable {
                    var_mod: vec![],
                    visibility: VariableVisibility::PUBLIC,
                    var_type: "int32".to_string(),
                    name: "var1".to_string(),
                },
                Variable {
                    var_mod: vec![],
                    visibility: VariableVisibility::PUBLIC,
                    var_type: "int32".to_string(),
                    name: "var2".to_string(),
                },
                Variable {
                    var_mod: vec![],
                    visibility: VariableVisibility::PUBLIC,
                    var_type: "int32".to_string(),
                    name: "var3".to_string(),
                },
            ],
        };

        let mut output = String::new();
        cpp::generate_class_or_struct(&oml_object, &mut output).unwrap();

        assert!(output.contains("var1"));
        assert!(output.contains("var2"));
        assert!(output.contains("var3"));
    }
    // compact header form
    {
        let oml_object = OmlObject {
            oml_type: ObjectType::CLASS,
            name: "MultiVar".to_string(),
            variables: vec![
                Variable {
                    var_mod: vec![],
                    visibility: VariableVisibility::PUBLIC,
                    var_type: "int32".to_string(),
                    name: "var1".to_string(),
                },
                Variable {
                    var_mod: vec![],
                    visibility: VariableVisibility::PUBLIC,
                    var_type: "int32".to_string(),
                    name: "var2".to_string(),
                },
                Variable {
                    var_mod: vec![],
                    visibility: VariableVisibility::PUBLIC,
                    var_type: "int32".to_string(),
                    name: "var3".to_string(),
                },
            ],
        };

        let mut output = String::new();
        cpp_plain::generate_class_or_struct(&oml_object, &mut output).unwrap();

        assert!(output.contains("var1"));
        assert!(output.contains("var2"));
        assert!(output.contains("var3"));
    }
}

#[test]
fn oml_cpp_test_struct_vs_class_keyword() {
    // header backend with generated members
    {
        let class_obj = OmlObject {
            oml_type: ObjectType::CLASS,
            name: "MyClass".to_string(),
            variables: vec![],
        };

        let struct_obj = OmlObject {
            oml_type: ObjectType::STRUCT,
            name: "MyStruct".to_string(),
            variables: vec![],
        };

        let mut class_output = String::new();
        let mut struct_output = String::new();

        cpp::generate_class_or_struct(&class_obj, &mut class_output).unwrap();
        cpp::generate_class_or_struct(&struct_obj, &mut struct_output).unwrap();

        assert!(class_output.contains("class MyClass"));
        assert!(struct_output.contains("struct MyStruct"));
    }
    // compact header form
    {
        let class_obj = OmlObject {
            oml_type: ObjectType::CLASS,
            name: "MyClass".to_string(),
            variables: vec![],
        };

        let struct_obj = OmlObject {
            oml_type: ObjectType::STRUCT,
            name: "MyStruct".to_string(),
            variables: vec![],
        };

        let mut class_output = String::new();
        let mut struct_output = String::new();

        cpp_plain::generate_class_or_struct(&class_obj, &mut class_output).unwrap();
        cpp_plain::generate_class_or_struct(&struct_obj, &mut struct_output).unwrap();

        assert!(class_output.contains("class MyClass"));
        assert!(struct_output.contains("struct MyStruct"));
    }
}

#[test]
fn oml_cpp_test_variable_with_all_modifiers() {
    // header backend with generated members
    {
        let var = Variable {
            var_mod: vec![
                VariableModifier::STATIC,
                VariableModifier::CONST,
                VariableModifier::OPTIONAL,
            ],
            visibility: VariableVisibility::PUBLIC,
            var_type: "int32".to_string(),
            name: "value".to_string(),
        };

        let mut output = String::new();
        cpp::convert_modifiers_and_type(&var, &mut output).unwrap();

        assert!(output.contains("static"));
        assert!(output.contains("const"));
        assert!(output.contains("std::optional"));
    }
    // compact header form
    {
        let var = Variable {
            var_mod: vec![
                VariableModifier::STATIC,
                VariableModifier::CONST,
                VariableModifier::OPTIONAL,
            ],
            visibility: VariableVisibility::PUBLIC,
            var_type: "int32".to_string(),
            name: "value".to_string(),
        };

        let mut output = String::new();
        cpp_plain::convert_modifiers_and_type(&var, &mut output).unwrap();

        assert!(output.contains("static"));
        assert!(output.contains("const"));
        assert!(output.contains("std::optional"));
    }
}

#[test]
fn oml_cpp_test_empty_variable_name() {
    // header backend with generated members
    {
        let oml_object = OmlObject {
            oml_type: ObjectType::CLASS,
            name: "Test".to_string(),
            variables: vec![
                Variable {
                    var_mod: vec![],
                    visibility: VariableVisibility::PUBLIC,
                    var_type: "int32".to_string(),
                    name: "".to_string(),
                },
            ],
        };

        let result = header_of(&oml_object, "Test");

        assert!(result.is_ok());
    }
    // compact header form
    {
        let oml_object = OmlObject {
            oml_type: ObjectType::CLASS,
            name: "Test".to_string(),
            variables: vec![
                Variable {
                    var_mod: vec![],
                    visibility: VariableVisibility::PUBLIC,
                    var_type: "int32".to_string(),
                    name: "".to_string(),
                },
            ],
        };

        let result = cpp_plain::oml_to_cpp(&oml_object, &"Test".to_string());

        assert!(result.is_ok());
    }
}

#[test]
fn oml_cpp_test_special_characters_in_class_name() {
    // header backend with generated members
    {
        let oml_object = OmlObject {
            oml_type: ObjectType::CLASS,
            name: "My_Class-123".to_string(),
            variables: vec![],
        };

        let mut output = String::new();
        cpp::generate_class_or_struct(&oml_object, &mut output).unwrap();

        assert!(output.contains("class My_Class-123 {"));
    }
    // compact header form
    {
        let oml_object = OmlObject {
            oml_type: ObjectType::CLASS,
            name: "My_Class-123".to_string(),
            variables: vec![],
        };

        let mut output = String::new();
        cpp_plain::generate_class_or_struct(&oml_object, &mut output).unwrap();

        assert!(output.contains("class My_Class-123 {"));
    }
}

#[test]
fn oml_cpp_test_long_variable_names() {
    // header backend with generated members
    {
        let long_name = "this_is_a_very_long_variable_name_that_should_still_work_correctly";

        let oml_object = OmlObject {
            oml_type: ObjectType::CLASS,
            name: "Test".to_string(),
            variables: vec![
                Variable {
                    var_mod: vec![],
                    visibility: VariableVisibility::PUBLIC,
                    var_type: "int32".to_string(),
                    name: long_name.to_string(),
                },
            ],
        };

        let mut output = String::new();
        cpp::generate_class_or_struct(&oml_object, &mut output).unwrap();

        assert!(output.contains(long_name));
    }
    // compact header form
    {
        let long_name = "this_is_a_very_long_variable_name_that_should_still_work_correctly";

        let oml_object = OmlObject {
            oml_type: ObjectType::CLASS,
            name: "Test".to_string(),
            variables: vec![
                Variable {
                    var_mod: vec![],
                    visibility: VariableVisibility::PUBLIC,
                    var_type: "int32".to_string(),
                    name: long_name.to_string(),
                },
            ],
        };

        let mut output = String::new();
        cpp_plain::generate_class_or_struct(&oml_object, &mut output).unwrap();

        assert!(output.contains(long_name));
    }
}

#[test]
fn oml_cpp_test_enum_has_proper_indentation() {
    // header backend with generated members
    {
        let oml_object = OmlObject {
            oml_type: ObjectType::ENUM,
            name: "Test".to_string(),
            variables: vec![
                Variable {
                    var_mod: vec![],
                    visibility: VariableVisibility::PUBLIC,
                    var_type: "".to_string(),
                    name: "Value".to_string(),
                },
            ],
        };

        let mut output = String::new();
        cpp::generate_enum(&oml_object, &mut output).unwrap();

        assert!(output.contains("\tVALUE"));
    }
    // compact header form
    {
        let oml_object = OmlObject {
            oml_type: ObjectType::ENUM,
            name: "Test".to_string(),
            variables: vec![
                Variable {
                    var_mod: vec![],
                    visibility: VariableVisibility::PUBLIC,
                    var_type: "".to_string(),
                    name: "Value".to_string(),
                },
            ],
        };

        let mut output = String::new();
        cpp_plain::generate_enum(&oml_object, &mut output).unwrap();

        assert!(output.contains("\tVALUE"));
    }
}

#[test]
fn oml_cpp_test_full_output_has_proper_structure() {
    // header backend with generated members
    {
        let oml_object = OmlObject {
            oml_type: ObjectType::CLASS,
            name: "Test".to_string(),
            variables: vec![],
        };

        let result = header_of(&oml_object, "Test").unwrap();

        let comment_pos = result.find("//").unwrap();
        let ifndef_pos = result.find("#ifndef").unwrap();
        let define_pos = result.find("#define").unwrap();
        let include_pos = result.find("#include").unwrap();
        let class_pos = result.find("class").unwrap();
        let endif_pos = result.find("#endif").unwrap();

        assert!(comment_pos < ifndef_pos);
        assert!(ifndef_pos < define_pos);
        assert!(define_pos < include_pos);
        assert!(include_pos < class_pos);
        assert!(class_pos < endif_pos);
    }
    // compact header form
    {
        let oml_object = OmlObject {
            oml_type: ObjectType::CLASS,
            name: "Test".to_string(),
            variables: vec![],
        };

        let result = cpp_plain::oml_to_cpp(&oml_object, &"Test".to_string()).unwrap();

        let comment_pos = result.find("//").unwrap();
        let ifndef_pos = result.find("#ifndef").unwrap();
        let define_pos = result.find("#define").unwrap();
        let include_pos = result.find("#include").unwrap();
        let class_pos = result.find("class").unwrap();
        let endif_pos = result.find("#endif").unwrap();

        assert!(comment_pos < ifndef_pos);
        assert!(ifndef_pos < define_pos);
        assert!(define_pos < include_pos);
        assert!(include_pos < class_pos);
        assert!(class_pos < endif_pos);
    }
}

#[test]
fn oml_cpp_test_semicolon_after_class_closing_brace() {
    // header backend with generated members
    {
        let oml_object = OmlObject {
            oml_type: ObjectType::CLASS,
            name: "Test".to_string(),
            variables: vec![],
        };

        let mut output = String::new();
        cpp::generate_class_or_struct(&oml_object, &mut output).unwrap();

        assert!(output.contains("};"));
    }
    // compact header form
    {
        let oml_object = OmlObject {
            oml_type: ObjectType::CLASS,
            name: "Test".to_string(),
            variables: vec![],
        };

        let mut output = String::new();
        cpp_plain::generate_class_or_struct(&oml_object, &mut output).unwrap();

        assert!(output.contains("};"));
    }
}

#[test]
fn oml_cpp_test_semicolon_after_enum_closing_brace() {
    // header backend with generated members
    {
        let oml_object = OmlObject {
            oml_type: ObjectType::ENUM,
            name: "Test".to_string(),
            variables: vec![],
        };

        let mut output = String::new();
        cpp::generate_enum(&oml_object, &mut output).unwrap();

        assert!(output.contains("};"));
    }
    // compact header form
    {
        let oml_object = OmlObject {
            oml_type: ObjectType::ENUM,
            name: "Test".to_string(),
            variables: vec![],
        };

        let mut output = String::new();
        cpp_plain::generate_enum(&oml_object, &mut output).unwrap();

        assert!(output.contains("};"));
    }
}

#[test]
fn oml_cpp_test_bug_include_has_backslash_n() {
    // header backend with generated members
    {
        let oml_object = OmlObject {
            oml_type: ObjectType::CLASS,
            name: "Test".to_string(),
            variables: vec![],
        };

        let result = header_of(&oml_object, "Test").unwrap();

        assert!(result.contains("#include <cstdint>") || result.contains("#\ninclude <cstdint>"));
    }
    // compact header form
    {
        let oml_object = OmlObject {
            oml_type: ObjectType::CLASS,
            name: "Test".to_string(),
            variables: vec![],
        };

        let result = cpp_plain::oml_to_cpp(&oml_object, &"Test".to_string()).unwrap();

        assert!(result.contains("#include <cstdint>") || result.contains("#\ninclude <cstdint>"));
    }
}

#[test]
fn oml_cpp_test_variable_output_has_semicolon() {
    // header backend with generated members
    {
        let oml_object = OmlObject {
            oml_type: ObjectType::CLASS,
            name: "Test".to_string(),
            variables: vec![
                Variable {
                    var_mod: vec![],
                    visibility: VariableVisibility::PUBLIC,
                    var_type: "int32".to_string(),
                    name: "value".to_string(),
                },
            ],
        };

        let result = header_of(&oml_object, "Test").unwrap();

        assert!(result.contains("value"));
    }
    // compact header form
    {
        let oml_object = OmlObject {
            oml_type: ObjectType::CLASS,
            name: "Test".to_string(),
            variables: vec![
                Variable {
                    var_mod: vec![],
                    visibility: VariableVisibility::PUBLIC,
                    var_type: "int32".to_string(),
                    name: "value".to_string(),
                },
            ],
        };

        let result = cpp_plain::oml_to_cpp(&oml_object, &"Test".to_string()).unwrap();

        assert!(result.contains("value"));
    }
}

#[test]
fn oml_cpp_test_protected_section_visibility() {
    // header backend with generated members
    {
        let oml_object = OmlObject {
            oml_type: ObjectType::CLASS,
            name: "Test".to_string(),
            variables: vec![
                Variable {
                    var_mod: vec![],
                    visibility: VariableVisibility::PROTECTED,
                    var_type: "int32".to_string(),
                    name: "prot_var".to_string(),
                },
            ],
        };

        let mut output = String::new();
        cpp::generate_class_or_struct(&oml_object, &mut output).unwrap();

        assert!(output.contains("prot_var"));
    }
    // compact header form
    {
        let oml_object = OmlObject {
            oml_type: ObjectType::CLASS,
            name: "Test".to_string(),
            variables: vec![
                Variable {
                    var_mod: vec![],
                    visibility: VariableVisibility::PROTECTED,
                    var_type: "int32".to_string(),
                    name: "prot_var".to_string(),
                },
            ],
        };

        let mut output = String::new();
        cpp_plain::generate_class_or_struct(&oml_object, &mut output).unwrap();

        assert!(output.contains("prot_var"));
    }
}

#[test]
fn oml_cpp_test_class_with_many_variables() {
    // header backend with generated members
    {
        let mut variables = vec![];
        for i in 0..100 {
            variables.push(Variable {
                var_mod: vec![],
                visibility: if i % 3 == 0 {
                    VariableVisibility::PUBLIC
                } else if i % 3 == 1 {
                    VariableVisibility::PRIVATE
                } else {
                    VariableVisibility::PROTECTED
                },
                var_type: "int32".to_string(),
                name: format!("var{}", i),
            });
        }

        let oml_object = OmlObject {
            oml_type: ObjectType::CLASS,
            name: "LargeClass".to_string(),
            variables,
        };

        let result = header_of(&oml_object, "LargeClass");

        assert!(result.is_ok());
        let output = result.unwrap();
        assert!(output.contains("var0"));
        assert!(output.contains("var99"));
    }
    // compact header form
    {
        let mut variables = vec![];
        for i in 0..100 {
            variables.push(Variable {
                var_mod: vec![],
                visibility: if i % 3 == 0 {
                    VariableVisibility::PUBLIC
                } else if i % 3 == 1 {
                    VariableVisibility::PRIVATE
                } else {
                    VariableVisibility::PROTECTED
                },
                var_type: "int32".to_string(),
                name: format!("var{}", i),
            });
        }

        let oml_object = OmlObject {
            oml_type: ObjectType::CLASS,
            name: "LargeClass".to_string(),
            variables,
        };

        let result = cpp_plain::oml_to_cpp(&oml_object, &"LargeClass".to_string());

        assert!(result.is_ok());
        let output = result.unwrap();
        assert!(output.contains("var0"));
        assert!(output.contains("var99"));
    }
}

#[test]
fn oml_cpp_test_enum_with_many_variants() {
    // header backend with generated members
    {
        let mut variables = vec![];
        for i in 0..50 {
            variables.push(Variable {
                var_mod: vec![],
                visibility: VariableVisibility::PUBLIC,
                var_type: "".to_string(),
                name: format!("Variant{}", i),
            });
        }

        let oml_object = OmlObject {
            oml_type: ObjectType::ENUM,
            name: "LargeEnum".to_string(),
            variables,
        };

        let mut output = String::new();
        cpp::generate_enum(&oml_object, &mut output).unwrap();

        assert!(output.contains("VARIANT0,"));
        assert!(output.contains("VARIANT49"));
        assert!(!output.contains("VARIANT49,"));
    }
    // compact header form
    {
        let mut variables = vec![];
        for i in 0..50 {
            variables.push(Variable {
                var_mod: vec![],
                visibility: VariableVisibility::PUBLIC,
                var_type: "".to_string(),
                name: format!("Variant{}", i),
            });
        }

        let oml_object = OmlObject {
            oml_type: ObjectType::ENUM,
            name: "LargeEnum".to_string(),
            variables,
        };

        let mut output = String::new();
        cpp_plain::generate_enum(&oml_object, &mut output).unwrap();

        assert!(output.contains("VARIANT0,"));
        assert!(output.contains("VARIANT49"));
        assert!(!output.contains("VARIANT49,"));
    }
}

#[test]
fn oml_cpp_test_all_integer_types_in_class() {
    // header backend with generated members
    {
        let types = vec!["int8", "int16", "int32", "int64", "uint8", "uint16", "uint32", "uint64"];
        let mut variables = vec![];

        for (i, oml_type_name) in types.iter().enumerate() {
            variables.push(Variable {
                var_mod: vec![],
                visibility: VariableVisibility::PUBLIC,
                var_type: oml_type_name.to_string(),
                name: format!("var{}", i),
            });
        }

        let oml_object = OmlObject {
            oml_type: ObjectType::CLASS,
            name: "AllTypes".to_string(),
            variables,
        };

        let result = header_of(&oml_object, "AllTypes").unwrap();

        assert!(result.contains("int8_t"));
        assert!(result.contains("int16_t"));
        assert!(result.contains("int32_t"));
        assert!(result.contains("int64_t"));
        assert!(result.contains("uint8_t"));
        assert!(result.contains("uint16_t"));
        assert!(result.contains("uint32_t"));
        assert!(result.contains("uint64_t"));
    }
    // compact header form
    {
        let types = vec!["int8", "int16", "int32", "int64", "uint8", "uint16", "uint32", "uint64"];
        let mut variables = vec![];

        for (i, oml_type_name) in types.iter().enumerate() {
            variables.push(Variable {
                var_mod: vec![],
                visibility: VariableVisibility::PUBLIC,
                var_type: oml_type_name.to_string(),
                name: format!("var{}", i),
            });
        }

        let oml_object = OmlObject {
            oml_type: ObjectType::CLASS,
            name: "AllTypes".to_string(),
            variables,
        };

        let result = cpp_plain::oml_to_cpp(&oml_object, &"AllTypes".to_string()).unwrap();

        assert!(result.contains("int8_t"));
        assert!(result.contains("int16_t"));
        assert!(result.contains("int32_t"));
        assert!(result.contains("int64_t"));
        assert!(result.contains("uint8_t"));
        assert!(result.contains("uint16_t"));
        assert!(result.contains("uint32_t"));
        assert!(result.contains("uint64_t"));
    }
}

#[test]
fn oml_cpp_test_string_type_in_class() {
    // header backend with generated members
    {
        let oml_object = OmlObject {
            oml_type: ObjectType::CLASS,
            name: "StringTest".to_string(),
            variables: vec![
                Variable {
                    var_mod: vec![],
                    visibility: VariableVisibility::PUBLIC,
                    var_type: "string".to_string(),
                    name: "text".to_string(),
                },
            ],
        };

        let result = header_of(&oml_object, "StringTest").unwrap();

        assert!(result.contains("std::string"));
        assert!(result.contains("#include <string>"));
    }
    // compact header form
    {
        let oml_object = OmlObject {
            oml_type: ObjectType::CLASS,
            name: "StringTest".to_string(),
            variables: vec![
                Variable {
                    var_mod: vec![],
                    visibility: VariableVisibility::PUBLIC,
                    var_type: "string".to_string(),
                    name: "text".to_string(),
                },
            ],
        };

        let result = cpp_plain::oml_to_cpp(&oml_object, &"StringTest".to_string()).unwrap();

        assert!(result.contains("std::string"));
        assert!(result.contains("#include <string>"));
    }
}

#[test]
fn oml_cpp_test_bool_and_char_types() {
    // header backend with generated members
    {
        let oml_object = OmlObject {
            oml_type: ObjectType::CLASS,
            name: "BasicTypes".to_string(),
            variables: vec![
                Variable {
                    var_mod: vec![],
                    visibility: VariableVisibility::PUBLIC,
                    var_type: "bool".to_string(),
                    name: "flag".to_string(),
                },
                Variable {
                    var_mod: vec![],
                    visibility: VariableVisibility::PUBLIC,
                    var_type: "char".to_string(),
                    name: "letter".to_string(),
                },
            ],
        };

        let result = header_of(&oml_object, "BasicTypes").unwrap();

        assert!(result.contains("bool"));
        assert!(result.contains("char"));
    }
    // compact header form
    {
        let oml_object = OmlObject {
            oml_type: ObjectType::CLASS,
            name: "BasicTypes".to_string(),
            variables: vec![
                Variable {
                    var_mod: vec![],
                    visibility: VariableVisibility::PUBLIC,
                    var_type: "bool".to_string(),
                    name: "flag".to_string(),
                },
                Variable {
                    var_mod: vec![],
                    visibility: VariableVisibility::PUBLIC,
                    var_type: "char".to_string(),
                    name: "letter".to_string(),
                },
            ],
        };

        let result = cpp_plain::oml_to_cpp(&oml_object, &"BasicTypes".to_string()).unwrap();

        assert!(result.contains("bool"));
        assert!(result.contains("char"));
    }
}
