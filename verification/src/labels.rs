//! Domain names on the wire: a run of length-prefixed labels closed by a zero byte.
//!
//! The length byte is a six-bit size. Its two top bits are reserved for
//! compression pointers, which no reader in this crate follows: a length byte
//! above 63 makes the sequence malformed.

use vstd::prelude::*;

verus! {

/// Largest size a label's length byte may declare.
pub const MAX_LABEL_LEN: u8 = 63;

/// What stands at the front of a byte sequence read as a label sequence.
pub enum Head {
    /// A zero length byte: the name ends here.
    Terminator,
    /// A length byte in `1..=63` with that many bytes behind it; holds the size.
    Label(int),
    /// Nothing left to read, a length byte above 63, or a label cut short.
    Malformed,
}

/// Reads the length byte at the front of `s`.
pub open spec fn head(s: Seq<u8>) -> Head {
    if s.len() == 0 {
        Head::Malformed
    } else if s[0] == 0 {
        Head::Terminator
    } else if s[0] > MAX_LABEL_LEN || 1 + s[0] > s.len() {
        Head::Malformed
    } else {
        Head::Label(s[0] as int)
    }
}

/// The labels that can be read off the front of `s`, in order, up to the
/// terminator or the first malformed position.
pub open spec fn labels(s: Seq<u8>) -> Seq<Seq<u8>>
    decreases s.len(),
{
    match head(s) {
        Head::Label(n) => seq![s.subrange(1, 1 + n)] + labels(s.skip(1 + n)),
        _ => Seq::empty(),
    }
}

/// Bytes taken by the labels of a well-formed name, its terminator not
/// counted; nothing when the sequence is malformed before a terminator.
pub open spec fn name_len(s: Seq<u8>) -> Option<int>
    decreases s.len(),
{
    match head(s) {
        Head::Terminator => Some(0),
        Head::Malformed => None,
        Head::Label(n) => match name_len(s.skip(1 + n)) {
            Some(rest) => Some(1 + n + rest),
            None => None,
        },
    }
}

/// Bytes that `names` take on the wire as labels: each one and its length byte.
pub open spec fn wire_size(names: Seq<Seq<u8>>) -> int
    decreases names.len(),
{
    if names.len() == 0 {
        0
    } else {
        1 + names[0].len() + wire_size(names.skip(1))
    }
}

/// The size of a well-formed name is that of its labels on the wire, and the
/// byte behind them is the terminator.
pub proof fn lemma_name_len_counts_labels(s: Seq<u8>)
    requires
        name_len(s) is Some,
    ensures
        name_len(s)->0 == wire_size(labels(s)),
        0 <= name_len(s)->0 < s.len(),
        s[name_len(s)->0] == 0,
    decreases s.len(),
{
    if let Head::Label(n) = head(s) {
        let rest = s.skip(1 + n);
        lemma_name_len_counts_labels(rest);
        let first = s.subrange(1, 1 + n);
        assert(labels(s).skip(1) =~= labels(rest));
        assert(labels(s)[0] == first);
        assert(rest[name_len(rest)->0] == s[1 + n + name_len(rest)->0]);
    }
}

/// Offset `p` is where a length byte of `s` stands: offset 0, or the offset
/// right behind a label that starts at such a position.
pub open spec fn is_length_position(s: Seq<u8>, p: int) -> bool
    decreases s.len(),
{
    p == 0 || match head(s) {
        Head::Label(n) => 1 + n <= p && is_length_position(s.skip(1 + n), p - (1 + n)),
        _ => false,
    }
}

/// A name whose walk reaches a length byte above 63 has no length.
pub proof fn lemma_oversized_label_has_no_length(s: Seq<u8>, p: int)
    requires
        is_length_position(s, p),
        0 <= p < s.len(),
        s[p] > MAX_LABEL_LEN,
    ensures
        name_len(s) is None,
    decreases s.len(),
{
    if p != 0 {
        let n = head(s)->Label_0;
        lemma_oversized_label_has_no_length(s.skip(1 + n), p - (1 + n));
    }
}

/// A well-formed name lies inside the bytes it was read from, terminator included.
pub proof fn lemma_name_len_bounds(s: Seq<u8>)
    requires
        name_len(s) is Some,
    ensures
        0 <= name_len(s)->0 < s.len(),
    decreases s.len(),
{
    if let Head::Label(n) = head(s) {
        lemma_name_len_bounds(s.skip(1 + n));
    }
}

/// Sequences with the same first `k` elements agree at every offset below `k`.
pub proof fn lemma_same_front(s: Seq<u8>, other: Seq<u8>, k: int, i: int)
    requires
        0 <= i < k,
        k <= s.len(),
        k <= other.len(),
        s.take(k) == other.take(k),
    ensures
        s[i] == other[i],
{
    assert(s.take(k)[i] == s[i]);
    assert(other.take(k)[i] == other[i]);
}

/// A well-formed name is read from its own bytes alone: a sequence that agrees
/// with `s` up to and including the terminator holds the same name.
pub proof fn lemma_name_ends_at_terminator(s: Seq<u8>, other: Seq<u8>, k: int)
    requires
        name_len(s) is Some,
        name_len(s)->0 < k <= s.len(),
        k <= other.len(),
        s.take(k) == other.take(k),
    ensures
        name_len(other) == name_len(s),
        labels(other) == labels(s),
    decreases s.len(),
{
    lemma_name_len_bounds(s);
    lemma_same_front(s, other, k, 0);
    if let Head::Label(n) = head(s) {
        let rest = s.skip(1 + n);
        let other_rest = other.skip(1 + n);
        lemma_name_len_bounds(rest);
        assert(rest.take(k - (1 + n)) =~= other_rest.take(k - (1 + n))) by {
            assert forall|i: int| 0 <= i < k - (1 + n) implies #[trigger] rest[i]
                == other_rest[i] by {
                lemma_same_front(s, other, k, 1 + n + i);
            }
        }
        lemma_name_ends_at_terminator(rest, other_rest, k - (1 + n));
        assert(s.subrange(1, 1 + n) =~= other.subrange(1, 1 + n)) by {
            assert forall|j: int| 1 <= j < 1 + n implies #[trigger] s[j] == other[j] by {
                lemma_same_front(s, other, k, j);
            }
        }
    }
}

/// Cursor over the labels of a name.
pub struct AddressIter<'a> {
    inner: &'a [u8],
    pointer: usize,
}

impl<'a> AddressIter<'a> {
    #[verifier::type_invariant]
    spec fn in_bounds(self) -> bool {
        self.pointer <= self.inner@.len()
    }

    /// The bytes not yet walked over.
    pub closed spec fn remaining(self) -> Seq<u8> {
        self.inner@.skip(self.pointer as int)
    }

    /// A cursor at the first length byte of `buffer`.
    pub fn new(buffer: &'a [u8]) -> (it: Self)
        ensures
            it.remaining() == buffer@,
    {
        Self { inner: buffer, pointer: 0 }
    }

    /// Yields the next label and steps past it. At the terminator it yields
    /// nothing; at a malformed position it yields an error. In both cases the
    /// cursor stays where it is.
    pub fn next(&mut self) -> (r: Option<Result<&'a [u8], ()>>)
        ensures
            match head(old(self).remaining()) {
                Head::Terminator => r is None && final(self).remaining() == old(self).remaining(),
                Head::Malformed => r == Some::<Result<&[u8], ()>>(Err(()))
                    && final(self).remaining() == old(self).remaining(),
                Head::Label(n) => r is Some && r->0 is Ok
                    && r->0->Ok_0@ == old(self).remaining().subrange(1, 1 + n)
                    && final(self).remaining() == old(self).remaining().skip(1 + n),
            },
    {
        proof {
            use_type_invariant(&*self);
        }
        let inner: &'a [u8] = self.inner;
        if self.pointer < inner.len() {
            let size: u8 = inner[self.pointer];
            if size == 0 {
                return None;
            } else if size > MAX_LABEL_LEN {
                return Some(Err(()));
            } else if size as usize <= inner.len() - self.pointer - 1 {
                let start: usize = self.pointer + 1;
                let end: usize = start + size as usize;
                let label: &'a [u8] = &inner[start..end];
                assert(label@ == old(self).remaining().subrange(1, 1 + size as int));
                assert(inner@.skip(end as int) == old(self).remaining().skip(1 + size as int));
                self.pointer = end;
                return Some(Ok(label));
            }
        }
        Some(Err(()))
    }
}

} // verus!
