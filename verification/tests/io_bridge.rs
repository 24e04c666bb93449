use lam::io::{format_error, number_read, parse_format, ReadFormat};
use lam::{InputStream, ScriptValue, StateValue};

fn word(s: &str) -> ScriptValue {
    ScriptValue::Text(s.as_bytes().to_vec())
}

#[test]
fn format_words() {
    assert_eq!(Some(ReadFormat::All), parse_format(&word("*a")));
    assert_eq!(Some(ReadFormat::All), parse_format(&word("*all")));
    assert_eq!(Some(ReadFormat::Line), parse_format(&word("*l")));
    assert_eq!(Some(ReadFormat::Line), parse_format(&word("*line")));
    assert_eq!(Some(ReadFormat::Number), parse_format(&word("*n")));
    assert_eq!(Some(ReadFormat::Number), parse_format(&word("*number")));
}

#[test]
fn format_counts() {
    assert_eq!(Some(ReadFormat::Count(1)), parse_format(&ScriptValue::Integer(1)));
    assert_eq!(Some(ReadFormat::Count(4096)), parse_format(&ScriptValue::Integer(4096)));
}

#[test]
fn what_is_no_format() {
    assert_eq!(None, parse_format(&ScriptValue::Boolean(true)));
    assert_eq!(None, parse_format(&ScriptValue::Nil));
    assert_eq!(None, parse_format(&ScriptValue::Other));
    assert_eq!(None, parse_format(&ScriptValue::Integer(0)));
    assert_eq!(None, parse_format(&ScriptValue::Integer(-3)));
    assert_eq!(None, parse_format(&ScriptValue::Number(1.5f64.to_bits())));
    assert_eq!(None, parse_format(&word("")));
    assert_eq!(None, parse_format(&word("*")));
    assert_eq!(None, parse_format(&word("*x")));
    assert_eq!(None, parse_format(&word("*alle")));
    assert_eq!(None, parse_format(&word("a")));
    assert_eq!(None, parse_format(&word("*A")));
}

#[test]
fn format_error_message() {
    let fault = format_error("Boolean(true)");
    assert_eq!("unexpected format Boolean(true)", fault.message);
    assert!(fault.message.contains("Boolean(true)"));
}

#[test]
fn read_all_then_nothing() {
    let mut s = InputStream::new(b"lam".to_vec());
    assert_eq!(StateValue::Text("lam".to_string()), s.read(ReadFormat::All));
    assert_eq!(3, s.position());
    assert_eq!(StateValue::Text(String::new()), s.read(ReadFormat::All));
    assert_eq!(3, s.position());
}

#[test]
fn read_all_of_nothing() {
    let mut s = InputStream::new(Vec::new());
    assert_eq!(StateValue::Text(String::new()), s.read(ReadFormat::All));
    assert_eq!(0, s.position());
}

#[test]
fn read_count_stops_at_the_end() {
    let mut s = InputStream::new(b"l".to_vec());
    assert_eq!(StateValue::Text("l".to_string()), s.read(ReadFormat::Count(3)));
    assert_eq!(1, s.position());
    assert_eq!(StateValue::Text(String::new()), s.read(ReadFormat::Count(3)));
}

#[test]
fn read_count_takes_no_more_than_asked() {
    let mut s = InputStream::new(b"lam".to_vec());
    assert_eq!(StateValue::Text("l".to_string()), s.read(ReadFormat::Count(1)));
    assert_eq!(StateValue::Text("am".to_string()), s.read(ReadFormat::Count(2)));
    assert_eq!(3, s.position());
}

#[test]
fn read_count_that_splits_a_character_gives_empty_text() {
    let mut s = InputStream::new("你".as_bytes().to_vec());
    assert_eq!(StateValue::Text(String::new()), s.read(ReadFormat::Count(1)));
    assert_eq!(1, s.position());
}

#[test]
fn read_lines_in_turn() {
    let mut s = InputStream::new(b"foo\nbar".to_vec());
    assert_eq!(StateValue::Text("foo\n".to_string()), s.read(ReadFormat::Line));
    assert_eq!(4, s.position());
    assert_eq!(StateValue::Text("bar".to_string()), s.read(ReadFormat::Line));
    assert_eq!(7, s.position());
    assert_eq!(StateValue::Text(String::new()), s.read(ReadFormat::Line));
}

#[test]
fn read_line_keeps_what_it_finds() {
    let mut s = InputStream::new(b"\n \r\n\n".to_vec());
    assert_eq!(StateValue::Text("\n".to_string()), s.read(ReadFormat::Line));
    assert_eq!(StateValue::Text(" \r\n".to_string()), s.read(ReadFormat::Line));
    assert_eq!(StateValue::Text("\n".to_string()), s.read(ReadFormat::Line));
    assert_eq!(StateValue::Text(String::new()), s.read(ReadFormat::Line));
}

#[test]
fn read_number_parses_the_rest() {
    let mut s = InputStream::new(b"3.1415926".to_vec());
    assert_eq!(StateValue::Number(3.1415926f64.to_bits()), s.read(ReadFormat::Number));
    assert_eq!(9, s.position());
    let mut s = InputStream::new(b"3".to_vec());
    assert_eq!(StateValue::Number(3f64.to_bits()), s.read(ReadFormat::Number));
    let mut s = InputStream::new(b"-1e3".to_vec());
    assert_eq!(StateValue::Number((-1000f64).to_bits()), s.read(ReadFormat::Number));
}

#[test]
fn read_number_that_fails_is_absent_and_consumes() {
    let mut s = InputStream::new(b"12 apples".to_vec());
    assert_eq!(StateValue::Absent, s.read(ReadFormat::Number));
    assert_eq!(9, s.position());
    let mut s = InputStream::new(Vec::new());
    assert_eq!(StateValue::Absent, s.read(ReadFormat::Number));
    let mut s = InputStream::new(vec![0x31, 0xff]);
    assert_eq!(StateValue::Absent, s.read(ReadFormat::Number));
    assert_eq!(2, s.position());
}

#[test]
fn number_read_of_a_parse() {
    assert_eq!(StateValue::Number(17), number_read(Some(17)));
    assert_eq!(StateValue::Absent, number_read(None));
}

#[test]
fn ill_formed_bytes_read_as_empty_text() {
    let mut s = InputStream::new(vec![0x66, 0xff, 0x0a, 0x62]);
    assert_eq!(StateValue::Text(String::new()), s.read(ReadFormat::Line));
    assert_eq!(3, s.position());
    assert_eq!(StateValue::Text("b".to_string()), s.read(ReadFormat::All));
}

#[test]
fn units_one_at_a_time() {
    let mut s = InputStream::new("你好".as_bytes().to_vec());
    assert_eq!("你", s.read_codepoint_unit(1));
    assert_eq!(3, s.position());
    assert_eq!("好", s.read_codepoint_unit(1));
    assert_eq!(6, s.position());
    assert_eq!("", s.read_codepoint_unit(1));
    assert_eq!(6, s.position());
}

#[test]
fn units_of_mixed_widths() {
    let mut s = InputStream::new("aé你😀z".as_bytes().to_vec());
    assert_eq!("aé你", s.read_codepoint_unit(3));
    assert_eq!(6, s.position());
    assert_eq!("😀z", s.read_codepoint_unit(5));
    assert_eq!(11, s.position());
}

#[test]
fn units_none_asked() {
    let mut s = InputStream::new(b"lam".to_vec());
    assert_eq!("", s.read_codepoint_unit(0));
    assert_eq!(0, s.position());
}

#[test]
fn units_cut_short_by_the_end() {
    let mut bytes = "a你".as_bytes().to_vec();
    bytes.pop();
    let mut s = InputStream::new(bytes);
    assert_eq!("a", s.read_codepoint_unit(2));
    assert_eq!(3, s.position());
}

#[test]
fn units_after_an_ill_formed_byte() {
    let mut s = InputStream::new(vec![0x61, 0xff, 0x62]);
    assert_eq!("a", s.read_codepoint_unit(2));
    assert_eq!(3, s.position());
}

#[test]
fn stream_length_and_sharing() {
    let s = InputStream::new(b"lam".to_vec());
    assert_eq!(3, s.len());
    let mut t = s.share_at(1);
    assert_eq!(1, t.position());
    assert_eq!("am", t.read_all());
    assert_eq!(0, s.position());
    let u = s.share_at(9);
    assert_eq!(3, u.position());
}
