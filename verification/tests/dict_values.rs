use scene_engine::dict::{Dict, DictValue};

#[test]
fn insert_then_get_returns_value() {
    let mut d = Dict::new();
    d.insert("hp".to_string(), DictValue::U32(20));
    assert_eq!(d.get(&"hp".to_string()), Some(&DictValue::U32(20)));
}

#[test]
fn get_absent_key_is_none() {
    let d = Dict::new();
    assert_eq!(d.get(&"missing".to_string()), None);
}

#[test]
fn insert_overwrites_previous_binding() {
    let mut d = Dict::new();
    d.insert("hp".to_string(), DictValue::U32(20));
    d.insert("hp".to_string(), DictValue::U32(15));
    assert_eq!(d.get(&"hp".to_string()), Some(&DictValue::U32(15)));
}

#[test]
fn remove_deletes_the_binding() {
    let mut d = Dict::new();
    d.insert("hp".to_string(), DictValue::U32(20));
    d.insert("mp".to_string(), DictValue::U32(5));
    d.remove(&"hp".to_string());
    assert_eq!(d.get(&"hp".to_string()), None);
    assert_eq!(d.get(&"mp".to_string()), Some(&DictValue::U32(5)));
}

#[test]
fn values_are_not_type_checked_on_insertion() {
    let mut d = Dict::new();
    d.insert("name".to_string(), DictValue::Str("red".to_string()));
    d.insert("name".to_string(), DictValue::I64(-3));
    // A reader expecting a string must pattern-match and treat this as a
    // mismatch, not an error from the dictionary itself.
    match d.get(&"name".to_string()) {
        Some(DictValue::Str(_)) => panic!("stale binding survived"),
        Some(DictValue::I64(v)) => assert_eq!(*v, -3),
        other => panic!("unexpected value: {:?}", other),
    }
}

#[test]
fn nested_dictionaries_round_trip() {
    let mut inner = Dict::new();
    inner.insert("x".to_string(), DictValue::U8(4));
    let mut d = Dict::new();
    d.insert("pos".to_string(), DictValue::Dict(inner));
    match d.get(&"pos".to_string()) {
        Some(DictValue::Dict(found)) => {
            assert_eq!(found.get(&"x".to_string()), Some(&DictValue::U8(4)));
        },
        other => panic!("unexpected value: {:?}", other),
    }
}

#[test]
fn clone_is_deep() {
    let mut inner = Dict::new();
    inner.insert("x".to_string(), DictValue::U8(4));
    let mut d = Dict::new();
    d.insert("pos".to_string(), DictValue::Dict(inner));
    d.insert(
        "tags".to_string(),
        DictValue::Array(vec![DictValue::Char('a'), DictValue::Null]),
    );
    let copy = d.clone();
    assert_eq!(copy, d);
    d.insert("pos".to_string(), DictValue::Null);
    // The clone keeps the original nested dictionary.
    match copy.get(&"pos".to_string()) {
        Some(DictValue::Dict(found)) => {
            assert_eq!(found.get(&"x".to_string()), Some(&DictValue::U8(4)));
        },
        other => panic!("unexpected value: {:?}", other),
    }
}

#[test]
fn float_payloads_travel_as_bit_patterns() {
    let mut d = Dict::new();
    d.insert("scale".to_string(), DictValue::F32Bits(1.5f32.to_bits()));
    match d.get(&"scale".to_string()) {
        Some(DictValue::F32Bits(bits)) => assert_eq!(f32::from_bits(*bits), 1.5f32),
        other => panic!("unexpected value: {:?}", other),
    }
}
