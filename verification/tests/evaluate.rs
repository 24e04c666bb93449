use lam::{evaluate, EvaluationBuilder, StateMap, StateValue};

const TIMEOUT_THRESHOLD: f32 = 0.01;

#[test]
fn test_evaluate_infinite_loop() {
    let timeout = 1;

    let input: &[u8] = &[];
    let mut e = EvaluationBuilder::new(input.to_vec(), r#"while true do end"#)
        .set_timeout(timeout)
        .build();
    let res = evaluate(&mut e).unwrap();
    assert_eq!("", res.result);

    let secs = res.duration.as_secs_f32();
    let to = timeout as f32;
    assert!((secs - to) / to < TIMEOUT_THRESHOLD, "timed out {}s", secs);
}

#[test]
fn test_read_all() {
    let input = "lam";
    let mut e = EvaluationBuilder::new(
        input.as_bytes().to_vec(),
        r#"local m = require('@lam'); return m.read('*a')"#,
    )
    .build();
    let res = evaluate(&mut e).unwrap();
    assert_eq!(input, res.result);
}

#[test]
fn test_read_partial_input() {
    let input = "lam";
    let mut e = EvaluationBuilder::new(
        input.as_bytes().to_vec(),
        r#"local m = require('@lam'); return m.read(1)"#,
    )
    .build();
    let res = evaluate(&mut e).unwrap();
    assert_eq!("l", res.result);
}

#[test]
fn test_read_more_than_input() {
    let input = "l";
    let mut e = EvaluationBuilder::new(
        input.as_bytes().to_vec(),
        r#"local m = require('@lam'); return m.read(3)"#,
    )
    .build();
    let res = evaluate(&mut e).unwrap();
    assert_eq!("l", res.result);
}

#[test]
fn test_read_unicode() {
    let input = "你好";
    let mut e = EvaluationBuilder::new(
        input.as_bytes().to_vec(),
        r#"local m = require('@lam'); return m.read_unicode(1)"#,
    )
    .build();
    let res = evaluate(&mut e).unwrap();
    assert_eq!("你", res.result);
}

#[test]
fn test_read_line() {
    let input = "foo\nbar";
    let mut e = EvaluationBuilder::new(
        input.as_bytes().to_vec(),
        r#"local m = require('@lam'); m.read('*l'); return m.read('*l')"#,
    )
    .build();
    let res = evaluate(&mut e).unwrap();
    assert_eq!("bar", res.result);
}

#[test]
fn test_read_number() {
    let input = "3.1415926";
    let mut e = EvaluationBuilder::new(
        input.as_bytes().to_vec(),
        r#"local m = require('@lam'); return m.read('*n')"#,
    )
    .build();
    let res = evaluate(&mut e).unwrap();
    assert_eq!("3.1415926", res.result);
}

#[test]
fn test_read_integer() {
    let input = "3";
    let mut e = EvaluationBuilder::new(
        input.as_bytes().to_vec(),
        r#"local m = require('@lam'); return m.read('*n')"#,
    )
    .build();
    let res = evaluate(&mut e).unwrap();
    assert_eq!("3", res.result);
}

#[test]
fn test_reevaluate() {
    let input = "foo\nbar";

    let mut e = EvaluationBuilder::new(
        input.as_bytes().to_vec(),
        r#"local m = require('@lam'); return m.read('*l')"#,
    )
    .build();

    let res = evaluate(&mut e).unwrap();
    assert_eq!("foo\n", res.result);

    let res = evaluate(&mut e).unwrap();
    assert_eq!("bar", res.result);
}

#[test]
fn test_handle_binary() {
    let input: &[u8] = &[1, 2, 3];
    let mut e = EvaluationBuilder::new(
        input.to_vec(),
        r#"local m = require('@lam'); local a = m.read('*a'); return #a"#,
    )
    .build();
    let res = evaluate(&mut e).unwrap();
    assert_eq!("3", res.result);
}

#[test]
fn test_state() {
    let input: &[u8] = &[];

    let mut state = StateMap::new();
    state.insert("a".to_string(), StateValue::Number(1.23f64.to_bits()));

    let mut e = EvaluationBuilder::new(
        input.to_vec(),
        r#"local m = require('@lam'); local a = m.get('a'); m.set('a', 4.56); return a"#,
    )
    .set_state(state)
    .build();

    let res = evaluate(&mut e).unwrap();
    assert_eq!("1.23", res.result);

    assert_eq!(StateValue::Number(4.56f64.to_bits()), e.state.lookup("a"));
}

#[test]
fn test_reuse_state() {
    let input: &[u8] = &[];

    let mut state = StateMap::new();
    state.insert("a".to_string(), StateValue::Number(1f64.to_bits()));

    let mut e = EvaluationBuilder::new(
        input.to_vec(),
        r#"local m = require('@lam'); local a = m.get('a'); m.set('a', a+1); return a"#,
    )
    .set_state(state)
    .build();

    {
        let res = evaluate(&mut e).unwrap();
        assert_eq!("1", res.result);

        assert_eq!(StateValue::Number(2f64.to_bits()), e.state.lookup("a"));
    }

    {
        let res = evaluate(&mut e).unwrap();
        assert_eq!("2", res.result);

        assert_eq!(StateValue::Number(3f64.to_bits()), e.state.lookup("a"));
    }
}
