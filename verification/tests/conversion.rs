use aethaum_core::dynamic::{dyn_value_eq, field_value_eq, DynValue, FieldTag, FieldValue};
use aethaum_core::execution_context::{ConversionError, FieldSchema, LuaReflectInit};
use aethaum_core::reflection::TypeKey;

fn entry() -> LuaReflectInit {
    LuaReflectInit {
        key: TypeKey(9),
        fields: vec![
            FieldSchema {
                name: "alive".to_string(),
                tag: FieldTag::Bool,
                default: FieldValue::Bool(true),
            },
            FieldSchema {
                name: "score".to_string(),
                tag: FieldTag::Int,
                default: FieldValue::Int(0),
            },
            FieldSchema {
                name: "speed".to_string(),
                tag: FieldTag::Float,
                default: FieldValue::Float(0),
            },
            FieldSchema {
                name: "label".to_string(),
                tag: FieldTag::Str,
                default: FieldValue::Str(String::new()),
            },
        ],
    }
}

fn shaped_payload() -> DynValue {
    DynValue::Table(vec![
        ("alive".to_string(), FieldValue::Bool(false)),
        ("score".to_string(), FieldValue::Int(-3)),
        ("speed".to_string(), FieldValue::Float(2.5f64.to_bits())),
        ("label".to_string(), FieldValue::Str("hero".to_string())),
    ])
}

#[test]
fn round_trip_preserves_a_shaped_payload() {
    let e = entry();
    let payload = shaped_payload();
    let inst = e.from_lua(&payload).expect("shaped payload converts");
    let back = e.to_lua(&inst);
    assert!(dyn_value_eq(&back, &payload));
}

#[test]
fn default_instance_projects_to_the_schema_defaults() {
    let e = entry();
    let inst = e.default();
    let back = e.to_lua(&inst);
    let expected = DynValue::Table(vec![
        ("alive".to_string(), FieldValue::Bool(true)),
        ("score".to_string(), FieldValue::Int(0)),
        ("speed".to_string(), FieldValue::Float(0)),
        ("label".to_string(), FieldValue::Str(String::new())),
    ]);
    assert!(dyn_value_eq(&back, &expected));
}

#[test]
fn non_table_payload_is_rejected() {
    let e = entry();
    match e.from_lua(&DynValue::Int(5)) {
        Err(ConversionError::NotATable) => {}
        other => panic!("expected the not-a-table rejection, got {:?}", other),
    }
    match e.from_lua(&DynValue::Nil) {
        Err(ConversionError::NotATable) => {}
        other => panic!("expected the not-a-table rejection, got {:?}", other),
    }
}

#[test]
fn wrong_field_count_is_rejected() {
    let e = entry();
    let short = DynValue::Table(vec![("alive".to_string(), FieldValue::Bool(true))]);
    match e.from_lua(&short) {
        Err(ConversionError::WrongFieldCount { expected, got }) => {
            assert_eq!(expected, 4);
            assert_eq!(got, 1);
        }
        other => panic!("expected the field-count rejection, got {:?}", other),
    }
}

#[test]
fn wrong_field_name_is_rejected_at_its_position() {
    let e = entry();
    let renamed = DynValue::Table(vec![
        ("alive".to_string(), FieldValue::Bool(false)),
        ("points".to_string(), FieldValue::Int(1)),
        ("speed".to_string(), FieldValue::Float(0)),
        ("label".to_string(), FieldValue::Str(String::new())),
    ]);
    match e.from_lua(&renamed) {
        Err(ConversionError::FieldNameMismatch { index }) => assert_eq!(index, 1),
        other => panic!("expected the name rejection, got {:?}", other),
    }
}

#[test]
fn wrong_field_tag_is_rejected_at_its_position() {
    let e = entry();
    let mistyped = DynValue::Table(vec![
        ("alive".to_string(), FieldValue::Bool(false)),
        ("score".to_string(), FieldValue::Str("many".to_string())),
        ("speed".to_string(), FieldValue::Float(0)),
        ("label".to_string(), FieldValue::Str(String::new())),
    ]);
    match e.from_lua(&mistyped) {
        Err(ConversionError::FieldTagMismatch { index }) => assert_eq!(index, 1),
        other => panic!("expected the tag rejection, got {:?}", other),
    }
}

#[test]
fn float_bits_travel_unchanged() {
    let e = LuaReflectInit {
        key: TypeKey(2),
        fields: vec![FieldSchema {
            name: "value".to_string(),
            tag: FieldTag::Float,
            default: FieldValue::Float(0),
        }],
    };
    let bits = (-0.1f64).to_bits();
    let payload = DynValue::Table(vec![("value".to_string(), FieldValue::Float(bits))]);
    let inst = e.from_lua(&payload).expect("shaped");
    match e.to_lua(&inst) {
        DynValue::Table(pairs) => {
            assert_eq!(pairs.len(), 1);
            match &pairs[0].1 {
                FieldValue::Float(b) => assert_eq!(f64::from_bits(*b), -0.1f64),
                other => panic!("expected the float bits back, got {:?}", other),
            }
        }
        other => panic!("expected a table, got {:?}", other),
    }
}

#[test]
fn field_value_equality_is_structural() {
    assert!(field_value_eq(&FieldValue::Int(3), &FieldValue::Int(3)));
    assert!(!field_value_eq(&FieldValue::Int(3), &FieldValue::Int(4)));
    assert!(!field_value_eq(&FieldValue::Int(3), &FieldValue::Bool(true)));
    assert!(field_value_eq(
        &FieldValue::Str("a".to_string()),
        &FieldValue::Str("a".to_string()),
    ));
    let t1 = DynValue::Table(vec![("a".to_string(), FieldValue::Int(1))]);
    let t2 = DynValue::Table(vec![("a".to_string(), FieldValue::Int(1))]);
    let t3 = DynValue::Table(vec![("b".to_string(), FieldValue::Int(1))]);
    assert!(dyn_value_eq(&t1, &t2));
    assert!(!dyn_value_eq(&t1, &t3));
    assert!(!dyn_value_eq(&t1, &DynValue::Nil));
}
