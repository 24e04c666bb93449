use lam::{ScriptValue, SharedState, StateMap, StateValue};

fn key(s: &str) -> ScriptValue {
    ScriptValue::Text(s.as_bytes().to_vec())
}

#[test]
fn missing_key_is_absent() {
    let map = StateMap::new();
    assert_eq!(StateValue::Absent, map.get("a"));
}

#[test]
fn get_after_insert() {
    let mut map = StateMap::new();
    map.insert("a".to_string(), StateValue::Number(1.23f64.to_bits()));
    map.insert("b".to_string(), StateValue::Text("x".to_string()));
    assert_eq!(StateValue::Number(1.23f64.to_bits()), map.get("a"));
    assert_eq!(StateValue::Text("x".to_string()), map.get("b"));
    assert_eq!(StateValue::Absent, map.get("c"));
}

#[test]
fn last_insert_wins() {
    let mut map = StateMap::new();
    map.insert("a".to_string(), StateValue::Boolean(true));
    map.insert("a".to_string(), StateValue::Boolean(false));
    assert_eq!(StateValue::Boolean(false), map.get("a"));
}

#[test]
fn script_set_then_get() {
    let mut map = StateMap::new();
    map.script_set("a".to_string(), &ScriptValue::Integer(2));
    assert_eq!(ScriptValue::Number(2f64.to_bits()), map.script_get(&key("a")));
    assert_eq!(StateValue::Number(2f64.to_bits()), map.get("a"));
    map.script_set("a".to_string(), &ScriptValue::Other);
    assert_eq!(ScriptValue::Nil, map.script_get(&key("a")));
}

#[test]
fn script_get_with_a_key_that_is_no_text() {
    let mut map = StateMap::new();
    map.insert("1".to_string(), StateValue::Boolean(true));
    assert_eq!(ScriptValue::Nil, map.script_get(&ScriptValue::Integer(1)));
    assert_eq!(ScriptValue::Nil, map.script_get(&ScriptValue::Nil));
    assert_eq!(ScriptValue::Nil, map.script_get(&ScriptValue::Text(vec![0xff])));
    assert_eq!(ScriptValue::Boolean(true), map.script_get(&key("1")));
}

#[test]
fn shared_state_starts_as_the_map() {
    let mut map = StateMap::new();
    map.insert("a".to_string(), StateValue::Text("v".to_string()));
    let state = SharedState::new(map);
    assert_eq!(StateValue::Text("v".to_string()), state.lookup("a"));
    assert_eq!(StateValue::Absent, state.lookup("b"));
    let other = state.share();
    assert_eq!(StateValue::Text("v".to_string()), other.lookup("a"));
}
