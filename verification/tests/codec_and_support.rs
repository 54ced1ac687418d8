use typst_tpl::codec::{field_type_from_value, field_type_to_value, schema_from_value, schema_to_value};
use typst_tpl::errors::TypstError;
use typst_tpl::progress::ProgressBar;
use typst_tpl::project::{check_date_input, check_keywords, check_project_name, DateCheck, ProjectConfig};
use typst_tpl::schema::{FieldKind, FieldType, Schema, SchemaField, ValidationError};
use typst_tpl::text::{child_path, elem_path, usize_to_string};
use typst_tpl::value::Value;

fn sample_schema() -> Schema {
    let mut address = Schema::new();
    address.add_field(SchemaField {
        key: "city".to_string(),
        label: Some("City".to_string()),
        field_type: FieldType::String,
        required: true,
        description: None,
        default: Some(Value::Text("Paris".to_string())),
    });
    let mut schema = Schema::new();
    schema.add_field(SchemaField {
        key: "name".to_string(),
        label: None,
        field_type: FieldType::String,
        required: true,
        description: Some("the project name".to_string()),
        default: None,
    });
    schema.add_field(SchemaField {
        key: "tags".to_string(),
        label: None,
        field_type: FieldType::Array(Box::new(FieldType::String)),
        required: false,
        description: None,
        default: None,
    });
    schema.add_field(SchemaField {
        key: "address".to_string(),
        label: None,
        field_type: FieldType::Object(Box::new(address)),
        required: true,
        description: None,
        default: None,
    });
    schema
}

#[test]
fn schema_round_trips_through_its_serialized_form() {
    let schema = sample_schema();
    let encoded = schema_to_value(&schema);
    let decoded = schema_from_value(&encoded).unwrap();
    assert_eq!(decoded, schema);
}

#[test]
fn empty_schema_round_trips() {
    let schema = Schema::new();
    let encoded = schema_to_value(&schema);
    assert_eq!(schema_from_value(&encoded).unwrap(), schema);
}

#[test]
fn field_type_tags_serialize_as_specified() {
    assert_eq!(
        field_type_to_value(&FieldType::String),
        Value::Text("string".to_string())
    );
    assert_eq!(
        field_type_to_value(&FieldType::Date),
        Value::Text("date".to_string())
    );
    let arr = field_type_to_value(&FieldType::Array(Box::new(FieldType::Number)));
    assert_eq!(
        arr,
        Value::Object(vec![(
            "array".to_string(),
            Value::Text("number".to_string())
        )])
    );
    assert_eq!(
        field_type_from_value(&arr).unwrap(),
        FieldType::Array(Box::new(FieldType::Number))
    );
}

#[test]
fn absent_default_stays_absent() {
    let mut schema = Schema::new();
    schema.add_field(SchemaField {
        key: "k".to_string(),
        label: None,
        field_type: FieldType::Boolean,
        required: false,
        description: None,
        default: None,
    });
    let encoded = schema_to_value(&schema);
    if let Value::Object(entries) = &encoded {
        if let Value::Array(items) = &entries[0].1 {
            if let Value::Object(field_entries) = &items[0] {
                assert_eq!(field_entries.len(), 5);
                assert!(field_entries.iter().all(|(k, _)| k != "default"));
                // Absent label is an explicit null, unlike an absent default.
                assert_eq!(field_entries[1], ("label".to_string(), Value::Null));
                return;
            }
        }
    }
    panic!("unexpected serialized shape");
}

#[test]
fn unreadable_values_do_not_decode() {
    assert!(schema_from_value(&Value::Number(1)).is_none());
    assert!(field_type_from_value(&Value::Text("float".to_string())).is_none());
    let wrong_tag = Value::Object(vec![("vector".to_string(), Value::Text("string".to_string()))]);
    assert!(field_type_from_value(&wrong_tag).is_none());
}

#[test]
fn paths_compose_as_reported() {
    assert_eq!(child_path("", &"name".to_string()), "name".to_string());
    assert_eq!(
        child_path("address", &"city".to_string()),
        "address.city".to_string()
    );
    assert_eq!(elem_path("tags", 1), "tags[1]".to_string());
    assert_eq!(usize_to_string(0), "0".to_string());
    assert_eq!(usize_to_string(907), "907".to_string());
}

#[test]
fn validation_errors_render_exact_messages() {
    let e = TypstError::from_validation(&ValidationError::NotAnObject);
    assert_eq!(e.message(), &"data must be an object".to_string());
    let e = TypstError::from_validation(&ValidationError::MissingRequiredField(
        "address.city".to_string(),
    ));
    assert_eq!(
        e.message(),
        &"missing required field: address.city".to_string()
    );
    let e = TypstError::from_validation(&ValidationError::TypeMismatch(
        "tags[1]".to_string(),
        FieldKind::String,
    ));
    assert_eq!(e.message(), &"field tags[1] must be a string".to_string());
}

#[test]
fn progress_counts_up_to_its_total() {
    let mut bar = ProgressBar::new(2);
    assert_eq!((bar.value, bar.total, bar.speed), (0, 2, 0));
    bar.increment();
    assert_eq!(bar.value, 1);
    bar.increment();
    assert_eq!(bar.value, 2);
    bar.increment();
    assert_eq!(bar.value, 2);
}

#[test]
fn date_inputs_are_judged_as_the_prompt_does() {
    assert_eq!(check_date_input(&"2021-08-01".to_string()), DateCheck::Valid);
    assert_eq!(check_date_input(&"".to_string()), DateCheck::Empty);
    assert_eq!(check_date_input(&"   ".to_string()), DateCheck::Empty);
    assert_eq!(
        check_date_input(&"2021-13-99".to_string()),
        DateCheck::BadFormat
    );
    assert_eq!(check_date_input(&"yesterday".to_string()), DateCheck::BadFormat);
    assert_eq!(
        check_date_input(&"2021-08-01T00:00".to_string()),
        DateCheck::BadFormat
    );
}

#[test]
fn project_inputs_are_checked() {
    assert!(check_project_name(&"my_project".to_string()));
    assert!(!check_project_name(&"".to_string()));
    assert!(check_keywords(&vec!["dev".to_string()]));
    assert!(!check_keywords(&Vec::new()));
    let config = ProjectConfig::new(
        "my_project".to_string(),
        "Rust".to_string(),
        vec!["dev".to_string(), "cli".to_string()],
    );
    assert_eq!(config.name, "my_project".to_string());
    assert_eq!(config.language, "Rust".to_string());
    assert_eq!(config.keywords.len(), 2);
}
