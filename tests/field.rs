use elmer::field::{field_table_to_json, field_value_to_json, DecimalValue, FieldTable, FieldValue, JsonValue};

#[test]
fn signed_int_projects_exactly() {
    assert!(matches!(field_value_to_json(&FieldValue::LongInt(-7)), JsonValue::Int(-7)));
    assert!(matches!(field_value_to_json(&FieldValue::ShortShortInt(-128)), JsonValue::Int(-128)));
    assert!(matches!(field_value_to_json(&FieldValue::ShortInt(300)), JsonValue::Int(300)));
    assert!(matches!(
        field_value_to_json(&FieldValue::LongLongInt(i64::MIN)),
        JsonValue::Int(i64::MIN)
    ));
}

#[test]
fn unsigned_int_projects_exactly() {
    assert!(matches!(field_value_to_json(&FieldValue::ShortShortUInt(255)), JsonValue::UInt(255)));
    assert!(matches!(field_value_to_json(&FieldValue::ShortUInt(65535)), JsonValue::UInt(65535)));
    assert!(matches!(field_value_to_json(&FieldValue::LongUInt(u32::MAX)), JsonValue::UInt(4294967295)));
    assert!(matches!(field_value_to_json(&FieldValue::Timestamp(1700000000)), JsonValue::UInt(1700000000)));
}

#[test]
fn boolean_projects_exactly() {
    assert!(matches!(field_value_to_json(&FieldValue::Boolean(true)), JsonValue::Bool(true)));
    assert!(matches!(field_value_to_json(&FieldValue::Boolean(false)), JsonValue::Bool(false)));
}

#[test]
fn void_and_floats_project() {
    assert!(matches!(field_value_to_json(&FieldValue::Void), JsonValue::Null));
    let bits = 1.5f32.to_bits();
    assert!(matches!(field_value_to_json(&FieldValue::Float(bits)), JsonValue::F32Bits(b) if b == bits));
    let bits = (-2.25f64).to_bits();
    assert!(matches!(field_value_to_json(&FieldValue::Double(bits)), JsonValue::F64Bits(b) if b == bits));
}

#[test]
fn strings_project_to_strings() {
    match field_value_to_json(&FieldValue::LongString("v".to_string())) {
        JsonValue::Str(s) => assert_eq!(s, "v"),
        other => panic!("unexpected {:?}", other),
    }
    match field_value_to_json(&FieldValue::ShortString("short".to_string())) {
        JsonValue::Str(s) => assert_eq!(s, "short"),
        other => panic!("unexpected {:?}", other),
    }
}

#[test]
fn decimal_projects_to_two_field_object() {
    match field_value_to_json(&FieldValue::DecimalValue(DecimalValue { scale: 2, value: 12345 })) {
        JsonValue::Object(es) => {
            assert_eq!(es.len(), 2);
            assert_eq!(es[0].0, "scale");
            assert!(matches!(es[0].1, JsonValue::UInt(2)));
            assert_eq!(es[1].0, "value");
            assert!(matches!(es[1].1, JsonValue::UInt(12345)));
        }
        other => panic!("unexpected {:?}", other),
    }
}

#[test]
fn byte_array_projects_to_numbers() {
    match field_value_to_json(&FieldValue::ByteArray(vec![0, 7, 255])) {
        JsonValue::Array(items) => {
            assert_eq!(items.len(), 3);
            assert!(matches!(items[0], JsonValue::UInt(0)));
            assert!(matches!(items[1], JsonValue::UInt(7)));
            assert!(matches!(items[2], JsonValue::UInt(255)));
        }
        other => panic!("unexpected {:?}", other),
    }
}

#[test]
fn field_array_projects_element_wise() {
    let v = FieldValue::FieldArray(vec![
        FieldValue::LongInt(-1),
        FieldValue::LongString("a".to_string()),
        FieldValue::FieldArray(vec![FieldValue::Boolean(true)]),
    ]);
    match field_value_to_json(&v) {
        JsonValue::Array(items) => {
            assert_eq!(items.len(), 3);
            assert!(matches!(items[0], JsonValue::Int(-1)));
            assert!(matches!(&items[1], JsonValue::Str(s) if s == "a"));
            assert!(matches!(&items[2], JsonValue::Array(inner) if matches!(inner[0], JsonValue::Bool(true))));
        }
        other => panic!("unexpected {:?}", other),
    }
}

#[test]
fn empty_table_projects_to_empty_object() {
    match field_table_to_json(&FieldTable { entries: Vec::new() }) {
        JsonValue::Object(es) => assert!(es.is_empty()),
        other => panic!("unexpected {:?}", other),
    }
}

#[test]
fn table_projects_members_in_order() {
    let t = FieldTable {
        entries: vec![
            ("k".to_string(), FieldValue::LongString("v".to_string())),
            ("n".to_string(), FieldValue::LongInt(-7)),
        ],
    };
    match field_table_to_json(&t) {
        JsonValue::Object(es) => {
            assert_eq!(es.len(), 2);
            assert_eq!(es[0].0, "k");
            assert!(matches!(&es[0].1, JsonValue::Str(s) if s == "v"));
            assert_eq!(es[1].0, "n");
            assert!(matches!(es[1].1, JsonValue::Int(-7)));
        }
        other => panic!("unexpected {:?}", other),
    }
}

#[test]
fn nested_tables_project_recursively() {
    let mut t = FieldTable { entries: vec![("leaf".to_string(), FieldValue::Boolean(true))] };
    for depth in 0..5 {
        t = FieldTable { entries: vec![(format!("level{}", depth), FieldValue::FieldTable(t))] };
    }
    let mut j = field_table_to_json(&t);
    for depth in (0..5).rev() {
        j = match j {
            JsonValue::Object(mut es) => {
                assert_eq!(es.len(), 1);
                let (name, inner) = es.pop().unwrap();
                assert_eq!(name, format!("level{}", depth));
                inner
            }
            other => panic!("unexpected {:?}", other),
        };
    }
    match j {
        JsonValue::Object(es) => {
            assert_eq!(es[0].0, "leaf");
            assert!(matches!(es[0].1, JsonValue::Bool(true)));
        }
        other => panic!("unexpected {:?}", other),
    }
}
