//! The finite input stream of an evaluation and the reads that consume it.

use crate::text::{is_text, lenient_text, text_from_bytes};
use crate::units::lemma_tail_decides;
use std::sync::Arc;
use vstd::prelude::*;
use vstd::slice::slice_subrange;
use vstd::utf8::{decode_utf8, valid_utf8};

verus! {

/// The byte that ends a line.
pub const LINE_END: u8 = 0x0A;

/// The most bytes that encode one unit of text.
pub const MAX_UNIT_LEN: usize = 4;

/// Length of the first line of `rest`, its terminator included; the whole
/// of `rest` where it holds no terminator.
pub open spec fn line_len(rest: Seq<u8>) -> nat
    decreases rest.len(),
{
    if rest.len() == 0 {
        0
    } else if rest[0] == LINE_END {
        1
    } else {
        1 + line_len(rest.skip(1))
    }
}

/// Number of bytes that a read of at most `n` bytes takes from `rest`.
pub open spec fn count_len(rest: Seq<u8>, n: nat) -> nat {
    if n <= rest.len() {
        n
    } else {
        rest.len()
    }
}

/// The byte-by-byte scan behind a read of text units. `taken` bytes of
/// `rest` have been taken, the longest well-formed prefix seen so far has
/// `kept` bytes, and `left` units are still wanted. Each further byte that
/// makes the taken bytes well-formed UTF-8 completes one unit. The result
/// is the pair of the bytes taken and the bytes kept at the end.
pub open spec fn unit_scan(rest: Seq<u8>, left: nat, taken: nat, kept: nat) -> (nat, nat)
    decreases rest.len() - taken,
{
    if left == 0 || taken >= rest.len() {
        (taken, kept)
    } else if valid_utf8(rest.subrange(0, taken as int + 1)) {
        unit_scan(rest, (left - 1) as nat, taken + 1, taken + 1)
    } else {
        unit_scan(rest, left, taken + 1, kept)
    }
}

/// Number of bytes that a read of `n` text units takes from `rest`.
pub open spec fn units_len(rest: Seq<u8>, n: nat) -> nat {
    unit_scan(rest, n, 0, 0).0
}

/// Number of leading bytes of `rest` that a read of `n` text units hands
/// out as text: the complete units assembled, without a truncated tail.
pub open spec fn units_kept(rest: Seq<u8>, n: nat) -> nat {
    unit_scan(rest, n, 0, 0).1
}

/// The text that a read of `n` text units yields from `rest`.
pub open spec fn units_text(rest: Seq<u8>, n: nat) -> Seq<char> {
    decode_utf8(rest.subrange(0, units_kept(rest, n) as int))
}

/// A line is never longer than what it is read from, and is empty only
/// where nothing is left. No terminator stands before its last byte,
/// and a line that stops short of the end stops on a terminator.
pub proof fn lemma_line_shape(rest: Seq<u8>)
    ensures
        line_len(rest) <= rest.len(),
        rest.len() > 0 ==> line_len(rest) >= 1,
        forall|i: int| 0 <= i < line_len(rest) - 1 ==> rest[i] != LINE_END,
        line_len(rest) < rest.len() ==> rest[line_len(rest) - 1] == LINE_END,
    decreases rest.len(),
{
    if rest.len() == 0 {
    } else if rest[0] == LINE_END {
    } else {
        let tail = rest.skip(1);
        lemma_line_shape(tail);
        assert forall|i: int| 0 <= i < line_len(rest) - 1 implies rest[i] != LINE_END by {
            if i > 0 {
                assert(tail[i - 1] == rest[i]);
            }
        }
        if line_len(rest) < rest.len() {
            assert(tail[line_len(tail) - 1] == rest[line_len(rest) - 1]);
        }
    }
}

/// A finite sequence of bytes with a read cursor. Reads consume bytes at
/// the cursor; nothing moves the cursor back.
pub struct InputStream {
    data: Arc<Vec<u8>>,
    pos: usize,
}

impl InputStream {
    #[verifier::type_invariant]
    spec fn well_formed(&self) -> bool {
        self.pos <= self.data@.len()
    }

    /// All bytes of the stream, consumed or not.
    pub closed spec fn bytes(&self) -> Seq<u8> {
        self.data@
    }

    /// Number of bytes consumed so far.
    pub closed spec fn cursor(&self) -> nat {
        self.pos as nat
    }

    /// The bytes not yet consumed.
    pub open spec fn remaining(&self) -> Seq<u8> {
        self.bytes().subrange(self.cursor() as int, self.bytes().len() as int)
    }

    /// What holds of every stream: the cursor lies within the bytes.
    pub open spec fn valid(&self) -> bool {
        self.cursor() <= self.bytes().len()
    }

    /// What is left and what is consumed add up to the whole.
    pub proof fn lemma_remaining_len(self)
        requires
            self.valid(),
        ensures
            self.remaining().len() == self.bytes().len() - self.cursor(),
    {
    }

    /// A stream that has moved `n` bytes on has left what the earlier
    /// one had left, without its first `n` bytes: reads follow one
    /// another without a gap and without a repeat.
    pub proof fn lemma_remaining_after(self, later: InputStream, n: nat)
        requires
            self.valid(),
            later.valid(),
            later.bytes() == self.bytes(),
            later.cursor() == self.cursor() + n,
        ensures
            later.remaining() == self.remaining().skip(n as int),
    {
        assert(later.remaining() =~= self.remaining().skip(n as int));
    }

    /// A stream over `data` with nothing consumed.
    pub fn new(data: Vec<u8>) -> (stream: InputStream)
        ensures
            stream.bytes() == data@,
            stream.cursor() == 0,
    {
        InputStream { data: Arc::new(data), pos: 0 }
    }

    /// Number of bytes consumed so far.
    pub fn position(&self) -> (pos: usize)
        ensures
            pos == self.cursor(),
            pos <= self.bytes().len(),
    {
        proof {
            use_type_invariant(self);
        }
        self.pos
    }

    /// Total number of bytes, consumed or not.
    pub fn len(&self) -> (len: usize)
        ensures
            len == self.bytes().len(),
    {
        self.data.len()
    }

    /// A second handle on the same bytes, with its own cursor placed at
    /// `pos`, or at the end where `pos` lies beyond it.
    pub fn share_at(&self, pos: usize) -> (stream: InputStream)
        ensures
            stream.bytes() == self.bytes(),
            stream.cursor() == count_len(self.bytes(), pos as nat),
    {
        let len = self.data.len();
        InputStream { data: Arc::clone(&self.data), pos: if pos <= len { pos } else { len } }
    }

    /// Moves the cursor forward to `pos`.
    pub(crate) fn advance_to(&mut self, pos: usize)
        requires
            old(self).cursor() <= pos <= old(self).bytes().len(),
        ensures
            final(self).bytes() == old(self).bytes(),
            final(self).cursor() == pos,
    {
        self.pos = pos;
    }

    /// Consumes `n` bytes and hands them out.
    fn take(&mut self, n: usize) -> (taken: &[u8])
        requires
            old(self).cursor() + n <= old(self).bytes().len(),
        ensures
            final(self).bytes() == old(self).bytes(),
            final(self).cursor() == old(self).cursor() + n,
            taken@ == old(self).remaining().subrange(0, n as int),
    {
        proof {
            use_type_invariant(&*self);
        }
        let len = self.data.len();
        let start = self.pos;
        assert(start + n <= len);
        self.pos = start + n;
        slice_subrange(self.data.as_slice(), start, start + n)
    }

    /// Reads one line, terminator included, or what is left where no
    /// terminator follows. Nothing is trimmed.
    pub fn read_line(&mut self) -> (text: String)
        ensures
            final(self).bytes() == old(self).bytes(),
            final(self).cursor() == old(self).cursor() + line_len(old(self).remaining()),
            text@ == lenient_text(
                old(self).remaining().subrange(0, line_len(old(self).remaining()) as int),
            ),
    {
        proof {
            use_type_invariant(&*self);
        }
        let len = self.data.len();
        let start = self.pos;
        let ghost rest = self.remaining();
        let mut n: usize = 0;
        let mut found = false;
        assert(rest.skip(0) =~= rest);
        while !found && start + n < len
            invariant
                start + n <= len,
                len == self.data@.len(),
                rest == self.data@.subrange(start as int, len as int),
                line_len(rest) == n + (if found {
                    0
                } else {
                    line_len(rest.skip(n as int))
                }),
            decreases len - start - n + (if found { 0int } else { 1int }),
        {
            let b = self.data[start + n];
            proof {
                assert(rest.skip(n as int)[0] == b);
                assert(rest.skip(n as int).skip(1) =~= rest.skip(n as int + 1));
            }
            n = n + 1;
            if b == LINE_END {
                found = true;
            }
        }
        let taken = self.take(n);
        text_from_bytes(taken)
    }

    /// Reads up to `n` bytes: exactly what is left where fewer than `n`
    /// remain.
    pub fn read_count(&mut self, n: usize) -> (text: String)
        ensures
            final(self).bytes() == old(self).bytes(),
            final(self).cursor() == old(self).cursor() + count_len(old(self).remaining(), n as nat),
            text@ == lenient_text(
                old(self).remaining().subrange(
                    0,
                    count_len(old(self).remaining(), n as nat) as int,
                ),
            ),
    {
        proof {
            use_type_invariant(&*self);
        }
        let left = self.data.len() - self.pos;
        let m = if n <= left { n } else { left };
        let taken = self.take(m);
        text_from_bytes(taken)
    }

    /// Reads `n` units of text, byte by byte: bytes are taken until the
    /// taken bytes have been well-formed UTF-8 `n` times or the stream
    /// ends. Hands out the complete units, never a truncated tail.
    ///
    /// Only the bytes since the last complete unit are looked at again
    /// for each byte taken, and none once they are too many to become a
    /// unit, so the read takes time in proportion to the bytes it takes.
    pub fn read_codepoint_unit(&mut self, n: usize) -> (text: String)
        ensures
            final(self).bytes() == old(self).bytes(),
            final(self).cursor() == old(self).cursor() + units_len(old(self).remaining(), n as nat),
            valid_utf8(
                old(self).remaining().subrange(
                    0,
                    units_kept(old(self).remaining(), n as nat) as int,
                ),
            ),
            text@ == units_text(old(self).remaining(), n as nat),
    {
        proof {
            use_type_invariant(&*self);
        }
        let len = self.data.len();
        let start = self.pos;
        let ghost rest = self.remaining();
        let mut left: usize = n;
        let mut taken: usize = 0;
        let mut kept: usize = 0;
        assert(rest.subrange(0, 0) =~= Seq::<u8>::empty());
        while left > 0 && start + taken < len
            invariant
                start + taken <= len,
                kept <= taken,
                len == self.data@.len(),
                start == self.pos,
                rest == self.data@.subrange(start as int, len as int),
                valid_utf8(rest.subrange(0, kept as int)),
                forall|j: int| kept < j <= taken ==> !valid_utf8(#[trigger] rest.subrange(0, j)),
                unit_scan(rest, n as nat, 0, 0) == unit_scan(
                    rest,
                    left as nat,
                    taken as nat,
                    kept as nat,
                ),
            decreases len - start - taken,
        {
            proof {
                lemma_tail_decides(rest, kept as nat, taken as nat);
            }
            let pending = taken - kept;
            taken = taken + 1;
            if pending < MAX_UNIT_LEN {
                let tail = slice_subrange(self.data.as_slice(), start + kept, start + taken);
                assert(tail@ =~= rest.subrange(kept as int, taken as int));
                if is_text(tail) {
                    left = left - 1;
                    kept = taken;
                }
            }
        }
        let all = self.take(taken);
        let out = slice_subrange(all, 0, kept);
        assert(out@ =~= rest.subrange(0, kept as int));
        text_from_bytes(out)
    }

    /// Reads everything that is left, as text. A second call gives the
    /// empty text.
    pub fn read_all(&mut self) -> (text: String)
        ensures
            final(self).bytes() == old(self).bytes(),
            final(self).cursor() == old(self).bytes().len(),
            text@ == lenient_text(old(self).remaining()),
    {
        proof {
            use_type_invariant(&*self);
        }
        let n = self.data.len() - self.pos;
        let taken = self.take(n);
        assert(taken@ == old(self).remaining());
        text_from_bytes(taken)
    }
}

} // verus!
