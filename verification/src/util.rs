//! Decoding of fixed-capacity, NUL-terminated byte buffers.
//!
//! Kernel enumeration interfaces hand back names and paths as fixed-size byte
//! buffers holding a NUL-terminated string. Everything the crate reads out of
//! such a buffer goes through one routine: take the bytes strictly before the
//! first NUL (the whole buffer if there is none) and decode them as UTF-8.
//! Bytes after the terminator are never inspected.

use vstd::prelude::*;
use vstd::utf8::{decode_utf8, valid_utf8};

verus! {

/// Index of the first NUL byte at or after position `i`, or the length of the
/// buffer when no NUL follows.
pub open spec fn nul_pos_from(s: Seq<u8>, i: int) -> int
    decreases s.len() - i,
{
    if i < 0 || i >= s.len() {
        s.len() as int
    } else if s[i] == 0 {
        i
    } else {
        nul_pos_from(s, i + 1)
    }
}

/// Index of the first NUL byte of the buffer, or its length when it has none.
pub open spec fn nul_pos(s: Seq<u8>) -> int {
    nul_pos_from(s, 0)
}

/// The bytes of the buffer strictly before its first NUL.
pub open spec fn prefix_before_nul(s: Seq<u8>) -> Seq<u8> {
    s.take(nul_pos(s))
}

/// What decoding a NUL-terminated buffer yields: the characters of the bytes
/// before the first NUL, or nothing when those bytes are not valid UTF-8.
pub open spec fn decoded(s: Seq<u8>) -> Option<Seq<char>> {
    if valid_utf8(prefix_before_nul(s)) {
        Some(decode_utf8(prefix_before_nul(s)))
    } else {
        None
    }
}

/// Basic facts about `nul_pos_from`: it stays in range, it points at a NUL
/// unless it is the length, and nothing before it (from `i` on) is a NUL.
pub proof fn lemma_nul_pos_from(s: Seq<u8>, i: int)
    requires
        0 <= i <= s.len(),
    ensures
        i <= nul_pos_from(s, i) <= s.len(),
        nul_pos_from(s, i) < s.len() ==> s[nul_pos_from(s, i)] == 0,
        forall|j: int| i <= j < nul_pos_from(s, i) ==> s[j] != 0,
    decreases s.len() - i,
{
    if i < s.len() && s[i] != 0 {
        lemma_nul_pos_from(s, i + 1);
    }
}

/// Decoding depends only on the bytes before the first NUL: two buffers
/// that agree up to their first terminator decode alike, whatever follows
/// the terminator in either.
pub proof fn lemma_decoded_ignores_tail(a: Seq<u8>, b: Seq<u8>)
    requires
        prefix_before_nul(a) == prefix_before_nul(b),
    ensures
        decoded(a) == decoded(b),
{
}

/// A buffer holding `name`, then a NUL, then arbitrary trailing bytes,
/// decodes to exactly the decoding of `name` alone: the trailing bytes are
/// never inspected.
pub proof fn lemma_decoded_stops_at_nul(name: Seq<u8>, tail: Seq<u8>)
    requires
        forall|i: int| 0 <= i < name.len() ==> name[i] != 0,
    ensures
        prefix_before_nul(name + seq![0u8] + tail) == name,
        decoded(name + seq![0u8] + tail) == (if valid_utf8(name) {
            Some(decode_utf8(name))
        } else {
            None
        }),
{
    let s = name + seq![0u8] + tail;
    lemma_nul_pos_from(s, 0);
    assert(s[name.len() as int] == 0);
    assert(forall|j: int| 0 <= j < name.len() ==> s[j] == name[j]);
    assert(nul_pos(s) == name.len());
    assert(s.take(name.len() as int) =~= name);
}

/// Relies on `String::from_utf8`: it succeeds exactly when the bytes are
/// valid UTF-8, and the returned string's characters are the UTF-8 decoding
/// of those bytes.
#[verifier::external_body]
fn utf8_to_string(bytes: Vec<u8>) -> (r: Option<String>)
    ensures
        r is Some <==> valid_utf8(bytes@),
        r matches Some(s) ==> s@ == decode_utf8(bytes@),
{
    String::from_utf8(bytes).ok()
}

/// Decodes a NUL-terminated byte buffer into a `String`.
///
/// The logical contents are the bytes strictly before the first NUL (the
/// whole buffer when it has none); trailing bytes past the terminator never
/// influence the result. Returns `None` exactly when those bytes are not
/// valid UTF-8.
pub fn string_from_bytes(bytes: &[u8]) -> (r: Option<String>)
    ensures
        match r {
            Some(s) => decoded(bytes@) == Some(s@),
            None => decoded(bytes@) is None,
        },
{
    let n = bytes.len();
    let mut i: usize = 0;
    while i < n && bytes[i] != 0
        invariant
            0 <= i <= n == bytes@.len(),
            nul_pos(bytes@) == nul_pos_from(bytes@, i as int),
        decreases n - i,
    {
        i = i + 1;
    }
    assert(nul_pos(bytes@) == i as int);

    let mut prefix: Vec<u8> = Vec::new();
    let mut k: usize = 0;
    while k < i
        invariant
            0 <= k <= i <= bytes@.len(),
            prefix@ == bytes@.take(k as int),
        decreases i - k,
    {
        let b = bytes[k];
        prefix.push(b);
        assert(prefix@ =~= bytes@.take(k + 1 as int));
        k = k + 1;
    }
    assert(prefix@ == prefix_before_nul(bytes@));

    utf8_to_string(prefix)
}

} // verus!
