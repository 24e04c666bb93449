use lam::text::{is_text, text_from_bytes};
use lam::value::{to_host, to_script};
use lam::{ScriptValue, StateValue};

#[test]
fn boolean_goes_to_host_as_boolean() {
    assert_eq!(StateValue::Boolean(true), to_host(&ScriptValue::Boolean(true)));
    assert_eq!(StateValue::Boolean(false), to_host(&ScriptValue::Boolean(false)));
}

#[test]
fn integer_goes_to_host_as_number() {
    assert_eq!(StateValue::Number(2f64.to_bits()), to_host(&ScriptValue::Integer(2)));
    assert_eq!(StateValue::Number((-7f64).to_bits()), to_host(&ScriptValue::Integer(-7)));
    assert_eq!(StateValue::Number(0f64.to_bits()), to_host(&ScriptValue::Integer(0)));
    assert_eq!(
        StateValue::Number((i32::MAX as f64).to_bits()),
        to_host(&ScriptValue::Integer(i32::MAX))
    );
}

#[test]
fn number_goes_to_host_unchanged() {
    let bits = 4.56f64.to_bits();
    assert_eq!(StateValue::Number(bits), to_host(&ScriptValue::Number(bits)));
}

#[test]
fn text_goes_to_host_decoded() {
    let v = to_host(&ScriptValue::Text("你好".as_bytes().to_vec()));
    assert_eq!(StateValue::Text("你好".to_string()), v);
}

#[test]
fn ill_formed_text_is_absent_on_the_host() {
    assert_eq!(StateValue::Absent, to_host(&ScriptValue::Text(vec![0xff, 0x61])));
}

#[test]
fn nil_and_other_kinds_are_absent_on_the_host() {
    assert_eq!(StateValue::Absent, to_host(&ScriptValue::Nil));
    assert_eq!(StateValue::Absent, to_host(&ScriptValue::Other));
}

#[test]
fn host_values_go_to_script() {
    assert_eq!(ScriptValue::Nil, to_script(&StateValue::Absent));
    assert_eq!(ScriptValue::Boolean(true), to_script(&StateValue::Boolean(true)));
    assert_eq!(ScriptValue::Number(9), to_script(&StateValue::Number(9)));
    assert_eq!(
        ScriptValue::Text(vec![0x61, 0xc3, 0xa9]),
        to_script(&StateValue::Text("aé".to_string()))
    );
}

#[test]
fn host_value_round_trip() {
    let values = vec![
        StateValue::Absent,
        StateValue::Boolean(false),
        StateValue::Number(1.23f64.to_bits()),
        StateValue::Text("foo\nbar".to_string()),
        StateValue::Text(String::new()),
    ];
    for v in values {
        assert_eq!(v, to_host(&to_script(&v)));
    }
}

#[test]
fn duplicate_is_equal() {
    let v = StateValue::Text("lam".to_string());
    assert_eq!(v, v.duplicate());
    assert_eq!(StateValue::Number(5), StateValue::Number(5).duplicate());
}

#[test]
fn lenient_decoding() {
    assert_eq!("lam", text_from_bytes(b"lam"));
    assert_eq!("", text_from_bytes(&[0x6c, 0xff]));
    assert_eq!("", text_from_bytes(&[]));
    assert_eq!("\u{1}\u{2}\u{3}", text_from_bytes(&[1, 2, 3]));
}

#[test]
fn well_formedness_of_bytes() {
    assert!(is_text(b""));
    assert!(is_text("你".as_bytes()));
    assert!(!is_text(&"你".as_bytes()[..2]));
    assert!(!is_text(&[0xc0, 0x80]));
    assert!(!is_text(&[0xed, 0xa0, 0x80]));
}
