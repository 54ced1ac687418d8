use typst_tpl::schema::{FieldKind, FieldType, Schema, SchemaField, ValidationError};
use typst_tpl::value::Value;

fn field(key: &str, required: bool, field_type: FieldType) -> SchemaField {
    SchemaField {
        key: key.to_string(),
        label: None,
        field_type,
        required,
        description: None,
        default: None,
    }
}

fn obj(entries: Vec<(&str, Value)>) -> Value {
    Value::Object(entries.into_iter().map(|(k, v)| (k.to_string(), v)).collect())
}

#[test]
fn accepts_conforming_data() {
    let mut schema = Schema::new();
    schema.add_field(field("name", true, FieldType::String));
    schema.add_field(field("age", false, FieldType::Number));
    schema.add_field(field("active", true, FieldType::Boolean));
    let data = obj(vec![
        ("name", Value::Text("amy".to_string())),
        ("age", Value::Number(30)),
        ("active", Value::Bool(true)),
    ]);
    assert_eq!(schema.validate(&data), Ok(()));
}

#[test]
fn optional_field_may_be_absent() {
    let mut schema = Schema::new();
    schema.add_field(field("age", false, FieldType::Number));
    assert_eq!(schema.validate(&obj(vec![])), Ok(()));
}

#[test]
fn rejects_non_object_data() {
    let mut schema = Schema::new();
    schema.add_field(field("name", true, FieldType::String));
    assert_eq!(
        schema.validate(&Value::Text("hi".to_string())),
        Err(ValidationError::NotAnObject)
    );
    assert_eq!(
        schema.validate(&Value::Number(7)),
        Err(ValidationError::NotAnObject)
    );
}

#[test]
fn reports_missing_required_field() {
    let mut schema = Schema::new();
    schema.add_field(field("name", true, FieldType::String));
    assert_eq!(
        schema.validate(&obj(vec![])),
        Err(ValidationError::MissingRequiredField("name".to_string()))
    );
}

#[test]
fn first_missing_required_field_wins() {
    let mut schema = Schema::new();
    schema.add_field(field("first", true, FieldType::String));
    schema.add_field(field("second", true, FieldType::String));
    assert_eq!(
        schema.validate(&obj(vec![])),
        Err(ValidationError::MissingRequiredField("first".to_string()))
    );
}

#[test]
fn reports_primitive_type_mismatch() {
    let mut schema = Schema::new();
    schema.add_field(field("name", true, FieldType::String));
    let data = obj(vec![("name", Value::Number(3))]);
    assert_eq!(
        schema.validate(&data),
        Err(ValidationError::TypeMismatch(
            "name".to_string(),
            FieldKind::String
        ))
    );
}

#[test]
fn date_field_takes_any_string() {
    let mut schema = Schema::new();
    schema.add_field(field("born", true, FieldType::Date));
    let good = obj(vec![("born", Value::Text("2021-08-01".to_string()))]);
    assert_eq!(schema.validate(&good), Ok(()));
    let bad = obj(vec![("born", Value::Number(20210801))]);
    assert_eq!(
        schema.validate(&bad),
        Err(ValidationError::TypeMismatch(
            "born".to_string(),
            FieldKind::Date
        ))
    );
}

#[test]
fn array_element_mismatch_names_the_index() {
    let mut schema = Schema::new();
    schema.add_field(field(
        "tags",
        true,
        FieldType::Array(Box::new(FieldType::String)),
    ));
    let data = obj(vec![(
        "tags",
        Value::Array(vec![Value::Text("a".to_string()), Value::Number(1)]),
    )]);
    assert_eq!(
        schema.validate(&data),
        Err(ValidationError::TypeMismatch(
            "tags[1]".to_string(),
            FieldKind::String
        ))
    );
}

#[test]
fn array_value_must_be_an_array() {
    let mut schema = Schema::new();
    schema.add_field(field(
        "tags",
        true,
        FieldType::Array(Box::new(FieldType::String)),
    ));
    let data = obj(vec![("tags", Value::Text("a".to_string()))]);
    assert_eq!(
        schema.validate(&data),
        Err(ValidationError::TypeMismatch(
            "tags".to_string(),
            FieldKind::Array
        ))
    );
}

#[test]
fn nested_error_paths_are_prefixed() {
    let mut address = Schema::new();
    address.add_field(field("city", true, FieldType::String));
    let mut schema = Schema::new();
    schema.add_field(field("address", true, FieldType::Object(Box::new(address))));
    let data = obj(vec![("address", obj(vec![]))]);
    assert_eq!(
        schema.validate(&data),
        Err(ValidationError::MissingRequiredField("address.city".to_string()))
    );
}

#[test]
fn doubly_nested_paths_compose() {
    let mut inner = Schema::new();
    inner.add_field(field("zip", true, FieldType::Number));
    let mut address = Schema::new();
    address.add_field(field("city", true, FieldType::Object(Box::new(inner))));
    let mut schema = Schema::new();
    schema.add_field(field("address", true, FieldType::Object(Box::new(address))));
    let data = obj(vec![(
        "address",
        obj(vec![("city", obj(vec![("zip", Value::Text("x".to_string()))]))]),
    )]);
    assert_eq!(
        schema.validate(&data),
        Err(ValidationError::TypeMismatch(
            "address.city.zip".to_string(),
            FieldKind::Number
        ))
    );
}

#[test]
fn array_elements_inside_nested_object() {
    let mut inner = Schema::new();
    inner.add_field(field(
        "tags",
        true,
        FieldType::Array(Box::new(FieldType::Boolean)),
    ));
    let mut schema = Schema::new();
    schema.add_field(field("meta", true, FieldType::Object(Box::new(inner))));
    let data = obj(vec![(
        "meta",
        obj(vec![(
            "tags",
            Value::Array(vec![Value::Bool(true), Value::Text("no".to_string())]),
        )]),
    )]);
    assert_eq!(
        schema.validate(&data),
        Err(ValidationError::TypeMismatch(
            "meta.tags[1]".to_string(),
            FieldKind::Boolean
        ))
    );
}

#[test]
fn duplicate_keys_are_each_checked_in_turn() {
    // Duplicate keys are a configuration error the validator does not
    // detect: both declarations are checked against the same value.
    let mut schema = Schema::new();
    schema.add_field(field("k", true, FieldType::String));
    schema.add_field(field("k", true, FieldType::Number));
    let data = obj(vec![("k", Value::Text("x".to_string()))]);
    assert_eq!(
        schema.validate(&data),
        Err(ValidationError::TypeMismatch(
            "k".to_string(),
            FieldKind::Number
        ))
    );
}

#[test]
fn extra_fields_are_ignored() {
    let mut schema = Schema::new();
    schema.add_field(field("name", true, FieldType::String));
    let data = obj(vec![
        ("name", Value::Text("amy".to_string())),
        ("unknown", Value::Null),
    ]);
    assert_eq!(schema.validate(&data), Ok(()));
}
