//! What a read of text units takes and yields, on any bytes and on
//! well-formed text.

use crate::stream::{unit_scan, units_kept, units_len};
use vstd::prelude::*;
use vstd::utf8::{
    decode_first_scalar, decode_utf8, length_of_first_scalar, pop_first_scalar,
    valid_first_scalar, valid_utf8,
};

verus! {

/// Number of the non-empty prefixes of `rest`, of at most `k` bytes, that
/// are well-formed UTF-8. Each of them ends one complete unit.
pub open spec fn complete_prefixes(rest: Seq<u8>, k: nat) -> nat
    decreases k,
{
    if k == 0 {
        0
    } else if k <= rest.len() && valid_utf8(rest.subrange(0, k as int)) {
        complete_prefixes(rest, (k - 1) as nat) + 1
    } else {
        complete_prefixes(rest, (k - 1) as nat)
    }
}

/// The scan from a point on: what it takes, what it keeps and how many
/// units it completes.
proof fn lemma_scan_shape(rest: Seq<u8>, left: nat, taken: nat, kept: nat)
    requires
        kept <= taken <= rest.len(),
        valid_utf8(rest.subrange(0, kept as int)),
        forall|j: int| kept < j <= taken ==> !valid_utf8(#[trigger] rest.subrange(0, j)),
    ensures
        taken <= unit_scan(rest, left, taken, kept).0 <= rest.len(),
        unit_scan(rest, left, taken, kept).1 <= unit_scan(rest, left, taken, kept).0,
        valid_utf8(rest.subrange(0, unit_scan(rest, left, taken, kept).1 as int)),
        forall|j: int|
            unit_scan(rest, left, taken, kept).1 < j <= unit_scan(rest, left, taken, kept).0
                ==> !valid_utf8(#[trigger] rest.subrange(0, j)),
        complete_prefixes(rest, unit_scan(rest, left, taken, kept).0) <= complete_prefixes(
            rest,
            taken,
        ) + left,
        unit_scan(rest, left, taken, kept).0 < rest.len() ==> complete_prefixes(
            rest,
            unit_scan(rest, left, taken, kept).0,
        ) == complete_prefixes(rest, taken) + left,
        forall|k: nat|
            taken <= k < unit_scan(rest, left, taken, kept).0 ==> #[trigger] complete_prefixes(
                rest,
                k,
            ) < complete_prefixes(rest, taken) + left,
    decreases rest.len() - taken,
{
    if left == 0 || taken >= rest.len() {
    } else if valid_utf8(rest.subrange(0, taken as int + 1)) {
        lemma_scan_shape(rest, (left - 1) as nat, taken + 1, taken + 1);
        assert(complete_prefixes(rest, taken + 1) == complete_prefixes(rest, taken) + 1);
    } else {
        lemma_scan_shape(rest, left, taken + 1, kept);
        assert(complete_prefixes(rest, taken + 1) == complete_prefixes(rest, taken));
    }
}

/// What a read of `n` units takes and keeps, on any bytes. It takes
/// bytes up to the one that completes the `n`-th unit and no further,
/// or all bytes where fewer units are complete. It keeps the longest
/// well-formed prefix of what it took.
pub proof fn lemma_units_shape(rest: Seq<u8>, n: nat)
    ensures
        units_kept(rest, n) <= units_len(rest, n) <= rest.len(),
        valid_utf8(rest.subrange(0, units_kept(rest, n) as int)),
        forall|j: int|
            units_kept(rest, n) < j <= units_len(rest, n) ==> !valid_utf8(
                #[trigger] rest.subrange(0, j),
            ),
        complete_prefixes(rest, units_len(rest, n)) <= n,
        units_len(rest, n) < rest.len() ==> complete_prefixes(rest, units_len(rest, n)) == n,
        forall|k: nat| k < units_len(rest, n) ==> #[trigger] complete_prefixes(rest, k) < n,
{
    assert(rest.subrange(0, 0) =~= Seq::<u8>::empty());
    assert(valid_utf8(Seq::<u8>::empty()));
    lemma_scan_shape(rest, n, 0, 0);
}

/// After a well-formed prefix of `kept` bytes, whether a longer prefix
/// is well-formed rests with the bytes past the `kept`-th alone. Where
/// no prefix in between is well-formed, those bytes can only be one
/// scalar, so that a prefix more than four bytes longer is never
/// well-formed.
pub proof fn lemma_tail_decides(rest: Seq<u8>, kept: nat, taken: nat)
    requires
        kept <= taken < rest.len(),
        valid_utf8(rest.subrange(0, kept as int)),
        forall|j: int| kept < j <= taken ==> !valid_utf8(#[trigger] rest.subrange(0, j)),
    ensures
        valid_utf8(rest.subrange(0, taken as int + 1)) <==> valid_utf8(
            rest.subrange(kept as int, taken as int + 1),
        ),
        taken - kept >= 4 ==> !valid_utf8(rest.subrange(0, taken as int + 1)),
{
    let head = rest.subrange(0, kept as int);
    let whole = rest.subrange(0, taken as int + 1);
    let tail = rest.subrange(kept as int, taken as int + 1);
    assert(whole.subrange(0, kept as int) =~= head);
    assert(whole.subrange(kept as int, whole.len() as int) =~= tail);
    assert(whole =~= head + tail);
    if valid_utf8(tail) {
        vstd::utf8::valid_utf8_concat(head, tail);
        if taken - kept >= 4 {
            lemma_first_scalar_prefixes(tail);
            let len = length_of_first_scalar(tail);
            let first = tail.subrange(0, len);
            vstd::utf8::valid_utf8_concat(head, first);
            assert(head + first =~= rest.subrange(0, kept as int + len));
            assert(!valid_utf8(rest.subrange(0, kept as int + len)));
        }
    } else {
        vstd::utf8::partial_valid_partial_invalid_utf8(whole, kept as int);
    }
}

/// The first `n` characters of `chars`, or all of them where there are
/// fewer.
pub open spec fn first_chars(chars: Seq<char>, n: nat) -> Seq<char> {
    if n <= chars.len() {
        chars.subrange(0, n as int)
    } else {
        chars
    }
}

/// Of the bytes that begin with the encoding of one scalar, no proper
/// prefix of that encoding is well-formed, and the encoding itself is.
proof fn lemma_first_scalar_prefixes(bytes: Seq<u8>)
    requires
        valid_first_scalar(bytes),
    ensures
        1 <= length_of_first_scalar(bytes) <= 4,
        length_of_first_scalar(bytes) <= bytes.len(),
        forall|j: int|
            1 <= j < length_of_first_scalar(bytes) ==> !valid_utf8(#[trigger] bytes.subrange(0, j)),
        valid_utf8(bytes.subrange(0, length_of_first_scalar(bytes))),
{
    let len = length_of_first_scalar(bytes);
    assert forall|j: int| 1 <= j < len implies !valid_utf8(#[trigger] bytes.subrange(0, j)) by {
        let x = bytes.subrange(0, j);
        assert(x.len() == j);
        assert(x[0] == bytes[0]);
    }
    let whole = bytes.subrange(0, len);
    assert(whole.len() == len);
    assert(whole[0] == bytes[0]);
    if len >= 2 {
        assert(whole[1] == bytes[1]);
    }
    if len >= 3 {
        assert(whole[2] == bytes[2]);
    }
    if len >= 4 {
        assert(whole[3] == bytes[3]);
    }
    assert(valid_first_scalar(whole));
    assert(pop_first_scalar(whole) =~= Seq::<u8>::empty());
    assert(valid_utf8(Seq::<u8>::empty()));
}

/// Past the encoding of a first scalar, a prefix is well-formed exactly
/// when what follows the first scalar in it is.
proof fn lemma_prefix_after_first(bytes: Seq<u8>, t: int)
    requires
        valid_first_scalar(bytes),
        0 <= t,
        length_of_first_scalar(bytes) + t <= bytes.len(),
    ensures
        valid_utf8(bytes.subrange(0, length_of_first_scalar(bytes) + t)) <==> valid_utf8(
            pop_first_scalar(bytes).subrange(0, t),
        ),
        valid_utf8(bytes.subrange(0, length_of_first_scalar(bytes) + t)) ==> decode_utf8(
            bytes.subrange(0, length_of_first_scalar(bytes) + t),
        ) == seq![decode_first_scalar(bytes) as char] + decode_utf8(
            pop_first_scalar(bytes).subrange(0, t),
        ),
{
    let len = length_of_first_scalar(bytes);
    let x = bytes.subrange(0, len + t);
    assert(x.len() == len + t);
    assert(x[0] == bytes[0]);
    if len >= 2 {
        assert(x[1] == bytes[1]);
    }
    if len >= 3 {
        assert(x[2] == bytes[2]);
    }
    if len >= 4 {
        assert(x[3] == bytes[3]);
    }
    assert(valid_first_scalar(x));
    assert(length_of_first_scalar(x) == len);
    assert(decode_first_scalar(x) == decode_first_scalar(bytes));
    assert(pop_first_scalar(x) =~= pop_first_scalar(bytes).subrange(0, t));
}

/// The scan over the first scalar: it takes the whole encoding, keeps
/// it, and counts it as one unit.
proof fn lemma_scan_first_unit(bytes: Seq<u8>, left: nat, taken: nat)
    requires
        valid_first_scalar(bytes),
        left >= 1,
        taken < length_of_first_scalar(bytes),
    ensures
        unit_scan(bytes, left, taken, 0) == unit_scan(
            bytes,
            (left - 1) as nat,
            length_of_first_scalar(bytes) as nat,
            length_of_first_scalar(bytes) as nat,
        ),
    decreases length_of_first_scalar(bytes) - taken,
{
    lemma_first_scalar_prefixes(bytes);
    let len = length_of_first_scalar(bytes);
    if taken + 1 < len {
        assert(!valid_utf8(bytes.subrange(0, taken as int + 1)));
        lemma_scan_first_unit(bytes, left, taken + 1);
    } else {
        assert(valid_utf8(bytes.subrange(0, taken as int + 1)));
    }
}

/// The scan past a first scalar goes as the scan of what follows it,
/// moved on by the length of the first scalar.
proof fn lemma_scan_after_first(bytes: Seq<u8>, left: nat, taken: nat, kept: nat)
    requires
        valid_first_scalar(bytes),
        taken <= pop_first_scalar(bytes).len(),
    ensures
        unit_scan(
            bytes,
            left,
            (length_of_first_scalar(bytes) + taken) as nat,
            (length_of_first_scalar(bytes) + kept) as nat,
        ) == (
            (length_of_first_scalar(bytes) + unit_scan(
                pop_first_scalar(bytes),
                left,
                taken,
                kept,
            ).0) as nat,
            (length_of_first_scalar(bytes) + unit_scan(
                pop_first_scalar(bytes),
                left,
                taken,
                kept,
            ).1) as nat,
        ),
    decreases pop_first_scalar(bytes).len() - taken,
{
    lemma_first_scalar_prefixes(bytes);
    let len = length_of_first_scalar(bytes);
    let rest = pop_first_scalar(bytes);
    assert(rest.len() == bytes.len() - len);
    if left == 0 || taken >= rest.len() {
    } else {
        lemma_prefix_after_first(bytes, taken as int + 1);
        if valid_utf8(rest.subrange(0, taken as int + 1)) {
            lemma_scan_after_first(bytes, (left - 1) as nat, taken + 1, taken + 1);
        } else {
            lemma_scan_after_first(bytes, left, taken + 1, kept);
        }
    }
}

/// A read of one unit from bytes that begin with the encoding of a
/// scalar takes exactly that encoding and yields exactly that one
/// character.
pub proof fn lemma_one_unit(rest: Seq<u8>)
    requires
        valid_first_scalar(rest),
    ensures
        units_len(rest, 1) == length_of_first_scalar(rest),
        units_kept(rest, 1) == length_of_first_scalar(rest),
        decode_utf8(rest.subrange(0, units_kept(rest, 1) as int)) == seq![
            decode_first_scalar(rest) as char,
        ],
{
    lemma_first_scalar_prefixes(rest);
    lemma_scan_first_unit(rest, 1, 0);
    lemma_prefix_after_first(rest, 0);
    assert(pop_first_scalar(rest).subrange(0, 0) =~= Seq::<u8>::empty());
    assert(decode_utf8(Seq::<u8>::empty()) =~= Seq::<char>::empty());
    assert(seq![decode_first_scalar(rest) as char] + Seq::<char>::empty() =~= seq![
        decode_first_scalar(rest) as char,
    ]);
}

/// A read of `n` units from well-formed text takes whole characters
/// only and yields the first `n` characters of the text, or all of it
/// where it has fewer.
pub proof fn lemma_units_of_text(rest: Seq<u8>, n: nat)
    requires
        valid_utf8(rest),
    ensures
        units_len(rest, n) <= rest.len(),
        units_kept(rest, n) == units_len(rest, n),
        valid_utf8(rest.subrange(0, units_len(rest, n) as int)),
        decode_utf8(rest.subrange(0, units_len(rest, n) as int)) == first_chars(
            decode_utf8(rest),
            n,
        ),
    decreases rest.len(),
{
    if n == 0 || rest.len() == 0 {
        assert(rest.subrange(0, 0) =~= Seq::<u8>::empty());
        assert(valid_utf8(Seq::<u8>::empty()));
        assert(decode_utf8(Seq::<u8>::empty()) =~= Seq::<char>::empty());
        if rest.len() == 0 {
            assert(rest =~= Seq::<u8>::empty());
        } else {
            assert(decode_utf8(rest).subrange(0, 0) =~= Seq::<char>::empty());
        }
    } else {
        let len = length_of_first_scalar(rest);
        let tail = pop_first_scalar(rest);
        let first = decode_first_scalar(rest) as char;
        lemma_first_scalar_prefixes(rest);
        assert(tail.len() == rest.len() - len);
        lemma_scan_first_unit(rest, n, 0);
        lemma_scan_after_first(rest, (n - 1) as nat, 0, 0);
        lemma_units_of_text(tail, (n - 1) as nat);
        let m = units_len(tail, (n - 1) as nat);
        assert(units_len(rest, n) == len + m);
        assert(units_kept(rest, n) == len + m);
        lemma_prefix_after_first(rest, m as int);
        let chars = decode_utf8(tail);
        assert(decode_utf8(rest) == seq![first] + chars);
        assert(seq![first] + first_chars(chars, (n - 1) as nat) =~= first_chars(
            seq![first] + chars,
            n,
        ));
    }
}

} // verus!
