//! What it means for a byte sequence to be decodable, partly decodable or
//! corrupt, and the facts about UTF-8 that extraction relies on.

use vstd::prelude::*;
use vstd::utf8::*;

verus! {

/// `n` is the valid-up-to offset of `s`: the longest prefix of `s` that is
/// well-formed UTF-8 has length `n`.
pub open spec fn is_valid_up_to(s: Seq<u8>, n: int) -> bool {
    &&& 0 <= n <= s.len()
    &&& valid_utf8(s.subrange(0, n))
    &&& forall|k: int| n < k <= s.len() ==> !#[trigger] valid_utf8(s.subrange(0, k))
}

/// `rest` is the start of well-formed UTF-8 that has not fully arrived yet:
/// some continuation completes it.
pub open spec fn is_incomplete(rest: Seq<u8>) -> bool {
    exists|t: Seq<u8>| #[trigger] valid_utf8(rest + t)
}

/// How many bytes an encoded character has that starts with `lead`, for the
/// bytes that can start one; 0 for those that never do.
pub open spec fn lead_width(lead: u8) -> int {
    if lead <= 0x7f {
        1
    } else if 0xc2 <= lead <= 0xdf {
        2
    } else if 0xe0 <= lead <= 0xef {
        3
    } else if 0xf0 <= lead <= 0xf4 {
        4
    } else {
        0
    }
}

/// Whether `b` may follow `lead` as the second byte of an encoded character:
/// the ranges that rule out overlong forms, surrogates and values past U+10FFFF.
pub open spec fn second_byte_fits(lead: u8, b: u8) -> bool {
    if lead == 0xe0 {
        0xa0 <= b <= 0xbf
    } else if lead == 0xed {
        0x80 <= b <= 0x9f
    } else if lead == 0xf0 {
        0x90 <= b <= 0xbf
    } else if lead == 0xf4 {
        0x80 <= b <= 0x8f
    } else {
        is_continuation_byte(b)
    }
}

/// The length of the malformed run at the front of `r`: the longest prefix of
/// `r` that is still the start of some encoded character, and at least 1.
pub open spec fn maximal_subpart_len(r: Seq<u8>) -> int
    recommends
        r.len() > 0,
{
    let w = lead_width(r[0]);
    if w < 2 || r.len() < 2 || !second_byte_fits(r[0], r[1]) {
        1
    } else if w == 2 || r.len() < 3 || !is_continuation_byte(r[2]) {
        2
    } else if w == 3 || r.len() < 4 || !is_continuation_byte(r[3]) {
        3
    } else {
        4
    }
}

/// Relies on `std::str::from_utf8`: it succeeds exactly on well-formed UTF-8;
/// its error gives the valid-up-to offset, and an error length that is absent
/// exactly when the input ended inside a sequence that could still be completed
/// and otherwise is the length of the malformed run at the valid-up-to offset.
#[verifier::external_body]
pub(crate) fn check_utf8(v: &[u8]) -> (r: Result<&str, (usize, Option<usize>)>)
    ensures
        match r {
            Ok(s) => valid_utf8(v@) && s@ == decode_utf8(v@),
            Err((n, e)) => {
                &&& !valid_utf8(v@)
                &&& is_valid_up_to(v@, n as int)
                &&& (e is None <==> is_incomplete(v@.subrange(n as int, v@.len() as int)))
                &&& (e matches Some(k) ==> k == maximal_subpart_len(
                    v@.subrange(n as int, v@.len() as int),
                ) && n + k <= v@.len())
            },
        },
{
    match std::str::from_utf8(v) {
        Ok(s) => Ok(s),
        Err(e) => Err((e.valid_up_to(), e.error_len())),
    }
}

/// A well-formed sequence followed by anything well-formed leaves a
/// well-formed remainder: UTF-8 is a prefix-free code.
pub proof fn lemma_valid_suffix(x: Seq<u8>, y: Seq<u8>)
    requires
        valid_utf8(x),
        valid_utf8(x + y),
    ensures
        valid_utf8(y),
    decreases x.len(),
{
    if x.len() == 0 {
        assert(x + y =~= y);
    } else {
        assert(pop_first_scalar(x + y) =~= pop_first_scalar(x) + y);
        lemma_valid_suffix(pop_first_scalar(x), y);
    }
}

/// Every well-formed sequence is its own valid-up-to offset.
pub proof fn lemma_valid_up_to_of_valid(s: Seq<u8>)
    requires
        valid_utf8(s),
    ensures
        is_valid_up_to(s, s.len() as int),
{
    assert(s.subrange(0, s.len() as int) =~= s);
}

/// Resumability: when well-formed text `a + b` arrives in two parts, the first
/// part's valid-up-to prefix `v` leaves a remainder that is merely incomplete
/// (never corrupt), and that remainder followed by `b` is well-formed, so the
/// two extracted prefixes together give back `a + b`.
pub proof fn lemma_resume(a: Seq<u8>, b: Seq<u8>, v: int)
    requires
        valid_utf8(a + b),
        is_valid_up_to(a, v),
    ensures
        valid_utf8(a) || is_incomplete(a.subrange(v, a.len() as int)),
        valid_utf8(a.subrange(v, a.len() as int) + b),
        a.subrange(0, v) + (a.subrange(v, a.len() as int) + b) == a + b,
{
    let p = a.subrange(0, v);
    let rest = a.subrange(v, a.len() as int);
    assert(p + (rest + b) =~= a + b);
    lemma_valid_suffix(p, rest + b);
    assert(valid_utf8(rest + b));
}

/// A buffer of well-formed text `p` followed by a proper, non-empty prefix of
/// one well-formed encoded character `e` has valid-up-to offset `p.len()`, and
/// its tail is incomplete rather than corrupt.
pub proof fn lemma_truncated_tail(p: Seq<u8>, e: Seq<u8>, j: int)
    requires
        valid_utf8(p),
        valid_utf8(e),
        e.len() > 0,
        length_of_first_scalar(e) == e.len(),
        0 < j < e.len(),
    ensures
        is_valid_up_to(p + e.subrange(0, j), p.len() as int),
        is_incomplete(e.subrange(0, j)),
        (p + e.subrange(0, j)).subrange(p.len() as int, p.len() + j) == e.subrange(0, j),
{
    let s = p + e.subrange(0, j);
    assert(s.subrange(0, p.len() as int) =~= p);
    assert(e.subrange(0, j) + e.subrange(j, e.len() as int) =~= e);
    assert(s.subrange(p.len() as int, p.len() + j) =~= e.subrange(0, j));
    assert forall|k: int| p.len() < k <= s.len() implies !#[trigger] valid_utf8(s.subrange(0, k)) by {
        let q = e.subrange(0, k - p.len());
        assert(s.subrange(0, k) =~= p + q);
        if valid_utf8(s.subrange(0, k)) {
            lemma_valid_suffix(p, q);
            assert(q[0] == e[0]);
            assert(q.len() < e.len());
        }
    }
}

/// A buffer of well-formed text `p` followed by a byte `c` that never starts an
/// encoded character (a continuation byte, or one of 0xF8 to 0xFF), and then
/// anything else, has valid-up-to
/// offset `p.len()`, and what follows is corrupt: nothing can complete it, and
/// the malformed run is that one byte.
pub proof fn lemma_corrupt_byte(p: Seq<u8>, c: u8, rest: Seq<u8>)
    requires
        valid_utf8(p),
        is_continuation_byte(c) || c >= 0xf8,
    ensures
        is_valid_up_to(p + (seq![c] + rest), p.len() as int),
        !is_incomplete(seq![c] + rest),
        maximal_subpart_len(seq![c] + rest) == 1,
        (p + (seq![c] + rest)).subrange(p.len() as int, (p + (seq![c] + rest)).len() as int)
            == seq![c] + rest,
{
    let tail = seq![c] + rest;
    let s = p + tail;
    assert(s.subrange(0, p.len() as int) =~= p);
    assert(s.subrange(p.len() as int, s.len() as int) =~= tail);
    assert forall|k: int| p.len() < k <= s.len() implies !#[trigger] valid_utf8(s.subrange(0, k)) by {
        let q = tail.subrange(0, k - p.len());
        assert(s.subrange(0, k) =~= p + q);
        if valid_utf8(s.subrange(0, k)) {
            lemma_valid_suffix(p, q);
            assert(q[0] == c);
        }
    }
    assert(tail[0] == c);
    assert forall|t: Seq<u8>| !#[trigger] valid_utf8(tail + t) by {
        assert((tail + t)[0] == c);
    }
}

} // verus!
