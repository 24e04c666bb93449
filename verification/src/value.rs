//! The value bridge: the tagged values that cross between host and script,
//! and the total conversions between the two sides.

use crate::text::decode;
use vstd::prelude::*;
use vstd::string::*;
use vstd::utf8::{decode_utf8, encode_utf8, valid_utf8};

verus! {

/// A value as the host keeps it. A number is held as the bit pattern of
/// its double-precision encoding.
#[derive(Clone, Debug, PartialEq)]
pub enum StateValue {
    /// No value.
    Absent,
    /// A truth value.
    Boolean(bool),
    /// A number, as the bits of a double.
    Number(u64),
    /// A text.
    Text(String),
}

/// The mathematical content of a [`StateValue`].
pub enum HostView {
    Absent,
    Boolean(bool),
    Number(u64),
    Text(Seq<char>),
}

impl View for StateValue {
    type V = HostView;

    open spec fn view(&self) -> HostView {
        match self {
            StateValue::Absent => HostView::Absent,
            StateValue::Boolean(b) => HostView::Boolean(*b),
            StateValue::Number(n) => HostView::Number(*n),
            StateValue::Text(s) => HostView::Text(s@),
        }
    }
}

/// A value as the script holds it, reduced to what the host can read:
/// the kinds the bridge understands and one kind for everything else.
#[derive(Clone, Debug, PartialEq)]
pub enum ScriptValue {
    /// The script's nil.
    Nil,
    /// A truth value.
    Boolean(bool),
    /// A number that the machine hands over as an integer.
    Integer(i32),
    /// A number, as the bits of a double.
    Number(u64),
    /// A string of the script: bytes, well-formed text or not.
    Text(Vec<u8>),
    /// A table, a function, or anything else that the host does not
    /// read.
    Other,
}

/// The mathematical content of a [`ScriptValue`].
pub enum ScriptView {
    Nil,
    Boolean(bool),
    Integer(i32),
    Number(u64),
    Text(Seq<u8>),
    Other,
}

impl View for ScriptValue {
    type V = ScriptView;

    open spec fn view(&self) -> ScriptView {
        match self {
            ScriptValue::Nil => ScriptView::Nil,
            ScriptValue::Boolean(b) => ScriptView::Boolean(*b),
            ScriptValue::Integer(i) => ScriptView::Integer(*i),
            ScriptValue::Number(n) => ScriptView::Number(*n),
            ScriptValue::Text(bytes) => ScriptView::Text(bytes@),
            ScriptValue::Other => ScriptView::Other,
        }
    }
}

/// The bits of the double that an integer of the script converts to.
pub uninterp spec fn integer_number(i: i32) -> u64;

/// The host value of a script value. A boolean is tried first, then an
/// integer, then a floating number, then text; text that is not
/// well-formed UTF-8 and every other kind are absent.
pub open spec fn host_of(v: ScriptView) -> HostView {
    match v {
        ScriptView::Boolean(b) => HostView::Boolean(b),
        ScriptView::Integer(i) => HostView::Number(integer_number(i)),
        ScriptView::Number(n) => HostView::Number(n),
        ScriptView::Text(bytes) => if valid_utf8(bytes) {
            HostView::Text(decode_utf8(bytes))
        } else {
            HostView::Absent
        },
        _ => HostView::Absent,
    }
}

/// The script value of a host value; an absent value is the script's nil.
pub open spec fn script_of(v: HostView) -> ScriptView {
    match v {
        HostView::Absent => ScriptView::Nil,
        HostView::Boolean(b) => ScriptView::Boolean(b),
        HostView::Number(n) => ScriptView::Number(n),
        HostView::Text(chars) => ScriptView::Text(encode_utf8(chars)),
    }
}

/// `f64::from` on a 32-bit integer, taken as bits: the double that the
/// integer converts to, which is exact for every such integer.
#[verifier::external_body]
pub(crate) fn number_from_integer(i: i32) -> (bits: u64)
    ensures
        bits == integer_number(i),
{
    mlua::Number::from(i).to_bits()
}

impl StateValue {
    /// A copy of the value.
    pub fn duplicate(&self) -> (copy: StateValue)
        ensures
            copy@ == self@,
    {
        match self {
            StateValue::Absent => StateValue::Absent,
            StateValue::Boolean(b) => StateValue::Boolean(*b),
            StateValue::Number(n) => StateValue::Number(*n),
            StateValue::Text(s) => StateValue::Text(s.clone()),
        }
    }
}

/// Converts a script value to the host's representation. Never fails.
pub fn to_host(v: &ScriptValue) -> (host: StateValue)
    ensures
        host@ == host_of(v@),
{
    match v {
        ScriptValue::Boolean(b) => StateValue::Boolean(*b),
        ScriptValue::Integer(i) => StateValue::Number(number_from_integer(*i)),
        ScriptValue::Number(n) => StateValue::Number(*n),
        ScriptValue::Text(bytes) => match decode(bytes.as_slice()) {
            Some(s) => StateValue::Text(s.to_owned()),
            None => StateValue::Absent,
        },
        _ => StateValue::Absent,
    }
}

/// Converts a host value to the script's representation. Never fails.
pub fn to_script(v: &StateValue) -> (script: ScriptValue)
    ensures
        script@ == script_of(v@),
{
    match v {
        StateValue::Absent => ScriptValue::Nil,
        StateValue::Boolean(b) => ScriptValue::Boolean(*b),
        StateValue::Number(n) => ScriptValue::Number(*n),
        StateValue::Text(s) => ScriptValue::Text(s.as_str().as_bytes_vec()),
    }
}

/// A host value that goes to the script and comes back is unchanged.
pub proof fn lemma_host_round_trip(v: HostView)
    ensures
        host_of(script_of(v)) == v,
{
    broadcast use vstd::utf8::encode_utf8_valid_utf8, vstd::utf8::encode_utf8_decode_utf8;
    match v {
        HostView::Text(chars) => {
            assert(valid_utf8(encode_utf8(chars)));
            assert(decode_utf8(encode_utf8(chars)) == chars);
        },
        _ => {},
    }
}

} // verus!
