//! The I/O bridge: the read formats a script may ask for, and what each
//! yields from the input stream.

use crate::stream::{count_len, lemma_line_shape, line_len, InputStream, LINE_END};
use crate::text::lenient_text;
use crate::value::{HostView, ScriptValue, ScriptView, StateValue};
use vstd::prelude::*;
use vstd::string::*;
use vstd::utf8::{decode_utf8, valid_utf8};

verus! {

/// How much a read takes, and what it makes of the bytes.
#[derive(Clone, Copy, Debug, PartialEq, Eq)]
pub enum ReadFormat {
    /// Everything that is left, as text.
    All,
    /// One line with its terminator, as text.
    Line,
    /// Everything that is left, parsed as a number.
    Number,
    /// At most this many bytes, as text.
    Count(usize),
}

/// The bytes of `*a`.
pub open spec fn word_all_short() -> Seq<u8> {
    seq![0x2Au8, 0x61u8]
}

/// The bytes of `*all`.
pub open spec fn word_all() -> Seq<u8> {
    seq![0x2Au8, 0x61u8, 0x6Cu8, 0x6Cu8]
}

/// The bytes of `*l`.
pub open spec fn word_line_short() -> Seq<u8> {
    seq![0x2Au8, 0x6Cu8]
}

/// The bytes of `*line`.
pub open spec fn word_line() -> Seq<u8> {
    seq![0x2Au8, 0x6Cu8, 0x69u8, 0x6Eu8, 0x65u8]
}

/// The bytes of `*n`.
pub open spec fn word_number_short() -> Seq<u8> {
    seq![0x2Au8, 0x6Eu8]
}

/// The bytes of `*number`.
pub open spec fn word_number() -> Seq<u8> {
    seq![0x2Au8, 0x6Eu8, 0x75u8, 0x6Du8, 0x62u8, 0x65u8, 0x72u8]
}

/// The format that a script value names, if it names one: one of the six
/// format words, or a positive integer as a byte count.
pub open spec fn format_of(arg: ScriptView) -> Option<ReadFormat> {
    match arg {
        ScriptView::Text(word) => if word == word_all_short() || word == word_all() {
            Some(ReadFormat::All)
        } else if word == word_line_short() || word == word_line() {
            Some(ReadFormat::Line)
        } else if word == word_number_short() || word == word_number() {
            Some(ReadFormat::Number)
        } else {
            None
        },
        ScriptView::Integer(n) => if n >= 1 {
            Some(ReadFormat::Count(n as usize))
        } else {
            None
        },
        _ => None,
    }
}

/// The bits of the double that a text parses to, if it parses.
pub uninterp spec fn parsed_number(text: Seq<char>) -> Option<u64>;

/// Number of bytes that a read in `format` takes from `rest`.
pub open spec fn read_len(rest: Seq<u8>, format: ReadFormat) -> nat {
    match format {
        ReadFormat::All => rest.len(),
        ReadFormat::Line => line_len(rest),
        ReadFormat::Number => rest.len(),
        ReadFormat::Count(n) => count_len(rest, n as nat),
    }
}

/// The host value of a parsed number: absent where the parse failed.
pub open spec fn number_value(parsed: Option<u64>) -> HostView {
    match parsed {
        Some(bits) => HostView::Number(bits),
        None => HostView::Absent,
    }
}

/// The value that a read in `format` yields from `rest`.
pub open spec fn read_value(rest: Seq<u8>, format: ReadFormat) -> HostView {
    let text = lenient_text(rest.subrange(0, read_len(rest, format) as int));
    match format {
        ReadFormat::Number => number_value(parsed_number(text)),
        _ => HostView::Text(text),
    }
}

/// What starts every message about an unrecognized read format.
pub open spec fn format_error_prefix() -> Seq<char> {
    "unexpected format "@
}

/// The fault raised for a read argument that names no format.
#[derive(Clone, Debug, PartialEq, Eq)]
pub struct FormatError {
    /// The words `unexpected format`, then the offending value.
    pub message: String,
}

/// `str::parse` for a double, taken as bits: the number that the text
/// spells in Rust's decimal float syntax, if it spells one.
#[verifier::external_body]
pub(crate) fn parse_number(text: &str) -> (parsed: Option<u64>)
    ensures
        parsed == parsed_number(text@),
{
    text.parse::<mlua::Number>().ok().map(mlua::Number::to_bits)
}

/// Whether `bytes` spell exactly `word`.
fn spells(bytes: &Vec<u8>, word: &[u8]) -> (same: bool)
    ensures
        same == (bytes@ == word@),
{
    if bytes.len() != word.len() {
        return false;
    }
    let mut i: usize = 0;
    while i < bytes.len()
        invariant
            i <= bytes.len(),
            bytes.len() == word.len(),
            forall|j: int| 0 <= j < i ==> bytes@[j] == word@[j],
        decreases bytes.len() - i,
    {
        if bytes[i] != word[i] {
            return false;
        }
        i = i + 1;
    }
    assert(bytes@ =~= word@);
    true
}

/// Reads a script value as a read format. Nothing but the six format
/// words and the positive integers is a format.
pub fn parse_format(arg: &ScriptValue) -> (format: Option<ReadFormat>)
    ensures
        format == format_of(arg@),
{
    match arg {
        ScriptValue::Text(word) => {
            let all_short: [u8; 2] = [0x2A, 0x61];
            let all: [u8; 4] = [0x2A, 0x61, 0x6C, 0x6C];
            let line_short: [u8; 2] = [0x2A, 0x6C];
            let line: [u8; 5] = [0x2A, 0x6C, 0x69, 0x6E, 0x65];
            let number_short: [u8; 2] = [0x2A, 0x6E];
            let number: [u8; 7] = [0x2A, 0x6E, 0x75, 0x6D, 0x62, 0x65, 0x72];
            proof {
                assert(all_short@ =~= word_all_short());
                assert(all@ =~= word_all());
                assert(line_short@ =~= word_line_short());
                assert(line@ =~= word_line());
                assert(number_short@ =~= word_number_short());
                assert(number@ =~= word_number());
            }
            if spells(word, all_short.as_slice()) || spells(word, all.as_slice()) {
                Some(ReadFormat::All)
            } else if spells(word, line_short.as_slice()) || spells(word, line.as_slice()) {
                Some(ReadFormat::Line)
            } else if spells(word, number_short.as_slice()) || spells(
                word,
                number.as_slice(),
            ) {
                Some(ReadFormat::Number)
            } else {
                None
            }
        },
        ScriptValue::Integer(n) => {
            if *n >= 1 {
                Some(ReadFormat::Count(*n as usize))
            } else {
                None
            }
        },
        _ => None,
    }
}

/// The value of a number read, given what the parse of its text gave.
pub fn number_read(parsed: Option<u64>) -> (value: StateValue)
    ensures
        value@ == number_value(parsed),
{
    match parsed {
        Some(bits) => StateValue::Number(bits),
        None => StateValue::Absent,
    }
}

/// The fault for a read argument that names no format. `description`
/// shows the offending value; the message ends with it.
pub fn format_error(description: &str) -> (fault: FormatError)
    ensures
        fault.message@ == format_error_prefix() + description@,
{
    let prefix = String::from_str("unexpected format ");
    FormatError { message: prefix.concat(description) }
}

/// A read of everything yields all that is left, and leaves nothing: a
/// second such read yields the empty text.
pub proof fn lemma_read_all_once(rest: Seq<u8>)
    ensures
        read_len(rest, ReadFormat::All) == rest.len(),
        read_value(rest, ReadFormat::All) == HostView::Text(lenient_text(rest)),
        read_value(rest.skip(read_len(rest, ReadFormat::All) as int), ReadFormat::All)
            == HostView::Text(Seq::empty()),
{
    let after = rest.skip(rest.len() as int);
    assert(rest.subrange(0, rest.len() as int) =~= rest);
    assert(after =~= Seq::<u8>::empty());
    assert(after.subrange(0, 0) =~= Seq::<u8>::empty());
    assert(valid_utf8(Seq::<u8>::empty()));
    assert(decode_utf8(Seq::<u8>::empty()) =~= Seq::<char>::empty());
}

/// A read of more bytes than are left yields exactly what is left.
pub proof fn lemma_read_beyond_end(rest: Seq<u8>, n: usize)
    requires
        n >= rest.len(),
    ensures
        read_len(rest, ReadFormat::Count(n)) == rest.len(),
        read_value(rest, ReadFormat::Count(n)) == HostView::Text(lenient_text(rest)),
{
    assert(rest.subrange(0, rest.len() as int) =~= rest);
}

/// No read takes more than what is left.
pub proof fn lemma_read_within(rest: Seq<u8>, format: ReadFormat)
    ensures
        read_len(rest, format) <= rest.len(),
{
    lemma_line_shape(rest);
}

/// Line reads take a stream apart line by line: what the first read
/// yields ends with the first terminator, and holds no other.
pub proof fn lemma_read_line_by_line(rest: Seq<u8>)
    ensures
        read_len(rest, ReadFormat::Line) <= rest.len(),
        rest.len() > 0 ==> read_len(rest, ReadFormat::Line) >= 1,
        forall|i: int| 0 <= i < read_len(rest, ReadFormat::Line) - 1 ==> rest[i] != LINE_END,
        read_len(rest, ReadFormat::Line) < rest.len() ==> rest[read_len(rest, ReadFormat::Line)
            - 1] == LINE_END,
        read_value(rest, ReadFormat::Line) == HostView::Text(
            lenient_text(rest.subrange(0, read_len(rest, ReadFormat::Line) as int)),
        ),
{
    lemma_line_shape(rest);
}

/// Every value names at most one format, and only texts and integers
/// name any.
pub proof fn lemma_format_shapes(arg: ScriptView)
    ensures
        format_of(arg) is Some ==> arg is Text || arg is Integer,
        arg is Boolean ==> format_of(arg) is None,
        arg matches ScriptView::Integer(n) ==> (format_of(arg) is Some <==> n >= 1),
{
}

impl InputStream {
    /// Reads in the given format. All bytes that the format asks for
    /// are consumed, whatever becomes of them as a value.
    pub fn read(&mut self, format: ReadFormat) -> (value: StateValue)
        ensures
            final(self).bytes() == old(self).bytes(),
            final(self).cursor() == old(self).cursor() + read_len(old(self).remaining(), format),
            value@ == read_value(old(self).remaining(), format),
    {
        let ghost rest = self.remaining();
        let _ = self.position();
        match format {
            ReadFormat::All => {
                let text = self.read_all();
                proof {
                    old(self).lemma_remaining_len();
                    assert(rest.subrange(0, rest.len() as int) =~= rest);
                }
                StateValue::Text(text)
            },
            ReadFormat::Line => StateValue::Text(self.read_line()),
            ReadFormat::Number => {
                let text = self.read_all();
                proof {
                    old(self).lemma_remaining_len();
                    assert(rest.subrange(0, rest.len() as int) =~= rest);
                }
                number_read(parse_number(text.as_str()))
            },
            ReadFormat::Count(n) => StateValue::Text(self.read_count(n)),
        }
    }
}

} // verus!
