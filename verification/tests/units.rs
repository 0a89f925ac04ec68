use structgen::driver::{format_for, generate};
use structgen::instance::Datum;
use structgen::schema::{GeneratedModule, Visibility};

const STRUCT_JSON: &str = r#"{
    "data": "test",
    "optional_field": { "opt_none": "" },
    "number_field": 0
}"#;

const STRUCT_TOML: &str = r#"
data = "test"
toml_specific_field = true
"#;

const STRUCT_YAML: &str = "data: test\nyaml_list:\n  - 1\n  - 2\n  - 3\n";

const STRUCT_CONF: &str = r#"{ "data": "test", "config_type": "json" }"#;

fn text(s: &str) -> Datum {
    Datum::Text(s.to_string())
}

fn generated(file_path: &str, explicit: Option<&str>, content: &str, name: &str) -> GeneratedModule {
    let format = format_for(file_path, explicit);
    generate(content, &format, name, &Visibility::Inherited).expect("the content is well formed")
}

#[test]
fn test_json_struct() {
    let module = generated("tests/struct.json", None, STRUCT_JSON, "Json");
    let json_struct = module.populated().expect("every type is defined");
    assert_eq!(json_struct.field("data"), Some(&text("test")), "JSON struct data should be 'test'");
    assert!(!module.is_empty(&json_struct), "JSON struct should not be empty");

    // Test default values
    assert_eq!(
        json_struct.field("optional_field"),
        Some(&Datum::Absent),
        "Optional field should be None by default"
    );
    assert_eq!(
        json_struct.field("number_field"),
        Some(&Datum::Integer(0)),
        "Number field should default to 0"
    );

    // Test debug output
    assert!(!format!("{:?}", json_struct).is_empty(), "Debug output should not be empty");
}

#[test]
fn test_toml_struct() {
    let module = generated("tests/struct.toml", None, STRUCT_TOML, "Toml");
    let toml_struct = module.populated().expect("every type is defined");
    assert_eq!(toml_struct.field("data"), Some(&text("test")), "TOML struct data should be 'test'");
    assert!(!module.is_empty(&toml_struct), "TOML struct should not be empty");

    // Test any TOML-specific fields
    assert_eq!(
        toml_struct.field("toml_specific_field"),
        Some(&Datum::Bool(true)),
        "TOML-specific field should be present"
    );

    // Test clone if implemented
    let cloned = toml_struct.clone();
    assert_eq!(toml_struct, cloned, "Cloned TOML struct should be equal to original");
    assert!(toml_struct.same(&cloned));
}

#[test]
fn test_yaml_struct() {
    let module = generated("tests/struct.yaml", None, STRUCT_YAML, "Yaml");
    let yaml_struct = module.populated().expect("every type is defined");
    assert_eq!(yaml_struct.field("data"), Some(&text("test")), "YAML struct data should be 'test'");
    assert!(!module.is_empty(&yaml_struct), "YAML struct should not be empty");

    // Test any YAML-specific fields
    match yaml_struct.field("yaml_list") {
        Some(Datum::List(items)) => assert!(items.len() > 0, "YAML list should not be empty"),
        other => panic!("YAML list should be a list, not {:?}", other),
    }
}

#[test]
fn test_generic_struct() {
    let module = generated("tests/struct.conf", Some("json"), STRUCT_CONF, "Generic");
    let generic_struct = module.populated().expect("every type is defined");
    assert_eq!(
        generic_struct.field("data"),
        Some(&text("test")),
        "Generic struct data should be 'test'"
    );
    assert!(!module.is_empty(&generic_struct), "Generic struct should not be empty");

    // Test generic fields
    assert!(
        generic_struct.field("config_type") == Some(&text("json")),
        "Config type should be 'json'"
    );
}
