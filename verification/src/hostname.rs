//! Dotted host names, taken apart into the labels a query is compared against.
//!
//! A name is handled as its UTF-8 bytes. The byte `.` never occurs inside a
//! multi-byte character, so cutting the bytes at every `.` gives the same
//! pieces as cutting the text.

use vstd::prelude::*;
use vstd::string::StringSliceAdditionalSpecFns;

verus! {

/// The name this device answers to.
pub const HOSTNAME: &'static str = "picohttp";

/// The separator between the labels of a dotted name.
pub const DOT: u8 = 0x2e;

/// Offset of the first dot in `s`, or the length of `s` when it holds none.
pub open spec fn first_dot(s: Seq<u8>) -> int
    decreases s.len(),
{
    if s.len() == 0 || s[0] == DOT {
        0
    } else {
        1 + first_dot(s.skip(1))
    }
}

/// The pieces of `name` between its dots, in order. There is always at least
/// one piece; a name without a dot is its own single piece, and a leading,
/// trailing or doubled dot gives an empty piece.
pub open spec fn dotted_labels(name: Seq<u8>) -> Seq<Seq<u8>>
    decreases name.len(),
{
    let cut = first_dot(name);
    if 0 <= cut < name.len() {
        seq![name.take(cut)] + dotted_labels(name.skip(cut + 1))
    } else {
        seq![name]
    }
}

/// The device's own name is the single label `picohttp`.
pub proof fn lemma_hostname_is_one_label()
    ensures
        HOSTNAME.spec_bytes() == seq![0x70u8, 0x69u8, 0x63u8, 0x6fu8, 0x68u8, 0x74u8, 0x74u8, 0x70u8],
        first_dot(HOSTNAME.spec_bytes()) == HOSTNAME.spec_bytes().len(),
        dotted_labels(HOSTNAME.spec_bytes()) == seq![HOSTNAME.spec_bytes()],
{
    reveal_strlit("picohttp");
    vstd::string::is_ascii_spec_bytes(HOSTNAME);
    let name = HOSTNAME.spec_bytes();
    assert(name =~= seq![0x70u8, 0x69u8, 0x63u8, 0x6fu8, 0x68u8, 0x74u8, 0x74u8, 0x70u8]);
    lemma_first_dot(name, 8);
}

/// `first_dot` is the one offset with no dot before it that is a dot itself or
/// the end of the sequence.
pub proof fn lemma_first_dot(s: Seq<u8>, cut: int)
    requires
        0 <= cut <= s.len(),
        forall|j: int| 0 <= j < cut ==> s[j] != DOT,
        cut < s.len() ==> s[cut] == DOT,
    ensures
        first_dot(s) == cut,
    decreases s.len(),
{
    if cut > 0 {
        let rest = s.skip(1);
        assert forall|j: int| 0 <= j < cut - 1 implies rest[j] != DOT by {
            assert(rest[j] == s[j + 1]);
        }
        lemma_first_dot(rest, cut - 1);
    }
}

/// Offset of the first dot of `name` at or behind `start`, or the length of
/// `name` when none is left.
pub(crate) fn next_dot(name: &[u8], start: usize) -> (end: usize)
    requires
        start <= name@.len(),
    ensures
        start <= end <= name@.len(),
        end - start == first_dot(name@.skip(start as int)),
{
    let mut end: usize = start;
    while end < name.len() && name[end] != DOT
        invariant
            start <= end <= name@.len(),
            forall|j: int| start <= j < end ==> name@[j] != DOT,
        decreases name@.len() - end,
    {
        end += 1;
    }
    proof {
        lemma_first_dot(name@.skip(start as int), end - start);
    }
    end
}

/// Byte-for-byte equality of two slices.
pub(crate) fn same_bytes(a: &[u8], b: &[u8]) -> (r: bool)
    ensures
        r == (a@ == b@),
{
    if a.len() != b.len() {
        return false;
    }
    let mut i: usize = 0;
    while i < a.len()
        invariant
            a@.len() == b@.len(),
            i <= a@.len(),
            forall|j: int| 0 <= j < i ==> a@[j] == b@[j],
        decreases a@.len() - i,
    {
        if a[i] != b[i] {
            return false;
        }
        i += 1;
    }
    assert(a@ =~= b@);
    true
}

} // verus!
