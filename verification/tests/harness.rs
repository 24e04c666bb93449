use lam::EvalResult;
use lam::harness::{
    render, reply_to, OutputFormat, Reply, BATCH_BUDGET, SERVICE_BUDGET, STATUS_BAD_REQUEST,
    STATUS_OK,
};
use lam::{evaluate, EvaluationBuilder, LamError};
use std::time::Duration;

#[test]
fn budgets_by_caller() {
    assert_eq!(30, BATCH_BUDGET);
    assert_eq!(60, SERVICE_BUDGET);
}

#[test]
fn reply_to_a_result() {
    let reply = reply_to(Ok(EvalResult {
        duration: Duration::from_secs(1),
        result: "2".to_string(),
    }));
    assert_eq!(Reply { status: 200, body: "2".to_string() }, reply);
    assert_eq!(STATUS_OK, reply.status);
}

#[test]
fn reply_to_a_failure_has_no_body() {
    let reply = reply_to(Err(LamError::Runtime("boom".to_string())));
    assert_eq!(Reply { status: 400, body: String::new() }, reply);
    assert_eq!(STATUS_BAD_REQUEST, reply.status);
    let reply = reply_to(Err(LamError::Compile("bad".to_string())));
    assert_eq!(Reply { status: 400, body: String::new() }, reply);
}

#[test]
fn reply_to_a_request() {
    let script = "local m = require('@lam'); return m.read('*a')";
    let mut e = EvaluationBuilder::new(b"body".to_vec(), script).build();
    assert_eq!(Reply { status: 200, body: "body".to_string() }, reply_to(evaluate(&mut e)));
    let mut e = EvaluationBuilder::new(b"body".to_vec(), "ret true").build();
    assert_eq!(Reply { status: 400, body: String::new() }, reply_to(evaluate(&mut e)));
}

#[test]
fn render_as_text() {
    assert_eq!("hello, world!", render(OutputFormat::Text, "hello, world!").unwrap());
    assert_eq!("", render(OutputFormat::Text, "").unwrap());
    assert_eq!("a\"b", render(OutputFormat::Text, "a\"b").unwrap());
}

#[test]
fn render_as_json() {
    assert_eq!("\"hello\"", render(OutputFormat::Json, "hello").unwrap());
    assert_eq!("\"\"", render(OutputFormat::Json, "").unwrap());
    assert_eq!("\"a\\\"b\\n\"", render(OutputFormat::Json, "a\"b\n").unwrap());
    assert_eq!("\"你好\"", render(OutputFormat::Json, "你好").unwrap());
}
