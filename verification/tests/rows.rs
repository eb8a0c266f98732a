use component_state::args::{parse_inputs, ArgValue, ArgumentBag};
use component_state::error::Error;
use component_state::ordered_map::OrderedMap;
use component_state::query::component_states_query;
use async_graphql::indexmap::IndexMap;
use async_graphql::Name;
use component_state::mapping::{TypeMapping, ValueMapping};
use component_state::row::{
    component_state_from_rows, component_states_from_rows, decode, encode, value_mapping_from_row,
    Row, StoredValue, Value, BOOLEAN_TRUE,
};

fn schema(pairs: &[(&str, &str)]) -> TypeMapping {
    let mut m: TypeMapping = IndexMap::new();
    for (n, t) in pairs {
        m.insert(Name::new(n), t.to_string());
    }
    m
}

fn entries(record: &ValueMapping) -> Vec<(String, Value)> {
    record.iter().map(|(n, v)| (n.as_str().to_string(), v.clone())).collect()
}

fn row(pairs: Vec<(&str, StoredValue)>) -> Row {
    let mut m: Row = OrderedMap::new();
    for (n, v) in pairs {
        m.insert(n.to_string(), v);
    }
    m
}

fn record(pairs: Vec<(&str, Value)>) -> ValueMapping {
    let mut m: ValueMapping = IndexMap::new();
    for (n, v) in pairs {
        m.insert(Name::new(n), v);
    }
    m
}

fn stored_text(s: &str) -> StoredValue {
    StoredValue::Text(s.to_string())
}

fn alice() -> Row {
    row(vec![
        ("id", stored_text("0x1")),
        ("external_owner", stored_text("alice")),
        ("external_health", StoredValue::Integer(10)),
        ("created_at", stored_text("2023-05-01 00:00:00")),
    ])
}

#[test]
fn boolean_one_decodes_to_true() {
    let r = row(vec![("external_alive", StoredValue::Integer(1))]);
    assert_eq!(decode("alive", "bool", &r), Ok(Value::Bool(true)));
    assert_eq!(BOOLEAN_TRUE, 1);
}

#[test]
fn boolean_zero_decodes_to_false() {
    let r = row(vec![("external_alive", StoredValue::Integer(0))]);
    assert_eq!(decode("alive", "bool", &r), Ok(Value::Bool(false)));
}

#[test]
fn boolean_of_any_other_integer_decodes_to_false() {
    for n in [2i64, -1, 255, i64::MAX, i64::MIN] {
        let r = row(vec![("external_alive", StoredValue::Integer(n))]);
        assert_eq!(decode("alive", "bool", &r), Ok(Value::Bool(false)));
    }
}

#[test]
fn number_passes_through_unchanged() {
    for n in [0i64, 10, -3, i64::MAX, i64::MIN] {
        let r = row(vec![("external_health", StoredValue::Integer(n))]);
        assert_eq!(decode("health", "u32", &r), Ok(Value::Number(n)));
    }
}

#[test]
fn text_passes_through_unchanged() {
    let r = row(vec![("external_owner", stored_text("alice"))]);
    assert_eq!(decode("owner", "String", &r), Ok(Value::Text("alice".to_string())));
    let r = row(vec![("external_big", stored_text("0xffff"))]);
    assert_eq!(decode("big", "u256", &r), Ok(Value::Text("0xffff".to_string())));
}

#[test]
fn column_is_read_under_the_prefixed_name_only() {
    let r = row(vec![("health", StoredValue::Integer(10))]);
    assert_eq!(
        decode("health", "u32", &r),
        Err(Error::Decode { attribute: "health".to_string() })
    );
}

#[test]
fn column_of_another_form_is_a_decoding_error() {
    let r = row(vec![
        ("external_health", stored_text("10")),
        ("external_owner", StoredValue::Integer(1)),
        ("external_alive", stored_text("yes")),
        ("external_blob", StoredValue::Other),
    ]);
    assert_eq!(
        decode("health", "u32", &r),
        Err(Error::Decode { attribute: "health".to_string() })
    );
    assert_eq!(
        decode("owner", "String", &r),
        Err(Error::Decode { attribute: "owner".to_string() })
    );
    assert_eq!(
        decode("alive", "bool", &r),
        Err(Error::Decode { attribute: "alive".to_string() })
    );
    assert_eq!(
        decode("blob", "String", &r),
        Err(Error::Decode { attribute: "blob".to_string() })
    );
}

#[test]
fn column_without_a_value_reads_as_zero_or_empty() {
    let r = row(vec![
        ("external_health", StoredValue::Null),
        ("external_owner", StoredValue::Null),
        ("external_alive", StoredValue::Null),
    ]);
    assert_eq!(decode("health", "u32", &r), Ok(Value::Number(0)));
    assert_eq!(decode("owner", "String", &r), Ok(Value::Text(String::new())));
    assert_eq!(decode("alive", "bool", &r), Ok(Value::Bool(false)));
}

#[test]
fn unresolved_type_fails_the_row() {
    let fields = schema(&[("owner", "String"), ("odd", "mystery")]);
    assert_eq!(
        value_mapping_from_row(&alice(), &fields),
        Err(Error::TypeNotFound { tag: "mystery".to_string() })
    );
}

#[test]
fn record_follows_schema_order() {
    let fields = schema(&[("health", "u32"), ("owner", "String")]);
    let got = value_mapping_from_row(&alice(), &fields).unwrap();
    assert_eq!(
        entries(&got),
        vec![
            ("health".to_string(), Value::Number(10)),
            ("owner".to_string(), Value::Text("alice".to_string())),
        ]
    );
}

#[test]
fn record_of_an_empty_schema_is_empty() {
    assert_eq!(value_mapping_from_row(&alice(), &schema(&[])), Ok(record(vec![])));
}

#[test]
fn first_failing_attribute_fails_the_row() {
    let fields = schema(&[("owner", "String"), ("mana", "u32"), ("speed", "u32")]);
    assert_eq!(
        value_mapping_from_row(&alice(), &fields),
        Err(Error::Decode { attribute: "mana".to_string() })
    );
}

#[test]
fn filtered_query_for_alice_gives_one_record() {
    let fields = schema(&[("owner", "String"), ("health", "u32")]);
    let mut args: ArgumentBag = OrderedMap::new();
    args.insert("owner".to_string(), ArgValue::Text("alice".to_string()));
    let (filters, limit) = parse_inputs(&args, &fields).unwrap();
    assert_eq!(limit, 10);
    let q = component_states_query("Player", &filters, limit);
    assert_eq!(
        q.sql,
        "SELECT * FROM external_Player WHERE external_owner = ? ORDER BY created_at DESC LIMIT ?"
    );
    assert_eq!(q.binds, vec!["alice".to_string(), "10".to_string()]);
    let got = component_states_from_rows(&vec![alice()], &fields).unwrap();
    assert_eq!(got.len(), 1);
    assert_eq!(
        entries(&got[0]),
        vec![
            ("owner".to_string(), Value::Text("alice".to_string())),
            ("health".to_string(), Value::Number(10)),
        ]
    );
}

#[test]
fn lookup_by_identifier_without_a_row_is_an_absence() {
    let fields = schema(&[("x", "u32"), ("y", "u32")]);
    assert_eq!(component_state_from_rows(&Vec::new(), &fields), Ok(None));
}

#[test]
fn lookup_by_identifier_with_several_rows_is_an_absence() {
    let fields = schema(&[("owner", "String"), ("health", "u32")]);
    assert_eq!(component_state_from_rows(&vec![alice(), alice()], &fields), Ok(None));
}

#[test]
fn lookup_by_identifier_with_one_row_gives_its_record() {
    let fields = schema(&[("owner", "String"), ("health", "u32")]);
    assert_eq!(
        component_state_from_rows(&vec![alice()], &fields),
        Ok(Some(record(vec![
            ("owner", Value::Text("alice".to_string())),
            ("health", Value::Number(10)),
        ])))
    );
}

#[test]
fn lookup_by_identifier_reports_a_row_that_cannot_be_decoded() {
    let fields = schema(&[("mana", "u32")]);
    assert_eq!(
        component_state_from_rows(&vec![alice()], &fields),
        Err(Error::Decode { attribute: "mana".to_string() })
    );
}

#[test]
fn limit_zero_gives_an_empty_list() {
    let fields = schema(&[("owner", "String"), ("health", "u32")]);
    let mut args: ArgumentBag = OrderedMap::new();
    args.insert("limit".to_string(), ArgValue::Unsigned(0));
    let (filters, limit) = parse_inputs(&args, &fields).unwrap();
    assert_eq!(limit, 0);
    let q = component_states_query("Player", &filters, limit);
    assert_eq!(q.binds, vec!["0".to_string()]);
    assert_eq!(component_states_from_rows(&Vec::new(), &fields), Ok(Vec::new()));
}

#[test]
fn rows_are_decoded_in_the_order_given() {
    let fields = schema(&[("health", "u32")]);
    let rows = vec![
        row(vec![("external_health", StoredValue::Integer(3))]),
        row(vec![("external_health", StoredValue::Integer(1))]),
        row(vec![("external_health", StoredValue::Integer(2))]),
    ];
    assert_eq!(
        component_states_from_rows(&rows, &fields),
        Ok(vec![
            record(vec![("health", Value::Number(3))]),
            record(vec![("health", Value::Number(1))]),
            record(vec![("health", Value::Number(2))]),
        ])
    );
}

#[test]
fn one_bad_row_discards_the_whole_list() {
    let fields = schema(&[("health", "u32")]);
    let rows = vec![
        row(vec![("external_health", StoredValue::Integer(3))]),
        row(vec![("external_health", stored_text("bad"))]),
        row(vec![("external_health", StoredValue::Integer(2))]),
    ];
    assert_eq!(
        component_states_from_rows(&rows, &fields),
        Err(Error::Decode { attribute: "health".to_string() })
    );
}

#[test]
fn stored_form_of_values() {
    assert_eq!(encode(&Value::Bool(true)), StoredValue::Integer(1));
    assert_eq!(encode(&Value::Bool(false)), StoredValue::Integer(0));
    assert_eq!(encode(&Value::Number(-7)), StoredValue::Integer(-7));
    assert_eq!(encode(&Value::Text("alice".to_string())), stored_text("alice"));
}

#[test]
fn decoding_then_encoding_gives_the_stored_values_back() {
    let fields = schema(&[("owner", "String"), ("health", "u32"), ("alive", "bool"), ("dead", "bool")]);
    let fixture = row(vec![
        ("external_owner", stored_text("alice")),
        ("external_health", StoredValue::Integer(10)),
        ("external_alive", StoredValue::Integer(1)),
        ("external_dead", StoredValue::Integer(0)),
    ]);
    let got = value_mapping_from_row(&fixture, &fields).unwrap();
    let got = entries(&got);
    assert_eq!(got.len(), fixture.len());
    for i in 0..got.len() {
        assert_eq!(format!("external_{}", got[i].0), *fixture.name_at(i));
        assert_eq!(encode(&got[i].1), *fixture.value_at(i));
    }
}

#[test]
fn encoding_then_decoding_gives_the_values_back() {
    let values = vec![
        ("alive", "bool", Value::Bool(true)),
        ("dead", "bool", Value::Bool(false)),
        ("health", "u64", Value::Number(77)),
        ("owner", "String", Value::Text("bob".to_string())),
    ];
    for (name, ty, value) in values {
        let mut r: Row = OrderedMap::new();
        r.insert(format!("external_{}", name), encode(&value));
        assert_eq!(decode(name, ty, &r), Ok(value));
    }
}
