//! View of one entry of the question section: a name, then QTYPE and QCLASS.

use vstd::prelude::*;
use vstd::string::StringSliceAdditionalSpecFns;
use crate::hostname::dotted_labels;
use crate::hostname::next_dot;
use crate::hostname::same_bytes;
use crate::labels::head;
use crate::labels::is_length_position;
use crate::labels::labels;
use crate::labels::lemma_oversized_label_has_no_length;
use crate::labels::name_len;
use crate::labels::AddressIter;
use crate::labels::Head;
use crate::labels::MAX_LABEL_LEN;

verus! {

/// Bytes a question holds besides its labels: the terminator, two bytes of
/// QTYPE and two of QCLASS.
pub const QUESTION_TAIL_SIZE: usize = 5;

/// Size in bytes of the question that starts `s`: its labels, then the
/// terminator, QTYPE and QCLASS. Only the name is read; whether `s` is long
/// enough to hold QTYPE and QCLASS is not looked at.
pub open spec fn question_len(s: Seq<u8>) -> Option<int> {
    match name_len(s) {
        Some(n) => Some(n + QUESTION_TAIL_SIZE),
        None => None,
    }
}

/// `question_len` as a machine size: nothing as well when the size does not
/// fit a `usize`.
pub open spec fn measured_len(s: Seq<u8>) -> Option<usize> {
    match question_len(s) {
        Some(n) if n <= usize::MAX => Some(n as usize),
        _ => None,
    }
}

/// The labels of `query` begin with the labels of the dotted `name`, one for
/// one and byte for byte. Labels of the query behind those are not looked at,
/// so a name below `name` matches too; a query with fewer labels does not.
pub open spec fn name_matches(query: Seq<u8>, name: Seq<u8>) -> bool {
    dotted_labels(name).is_prefix_of(labels(query))
}

/// Two sequences with a first element each: one is a prefix of the other when
/// the first elements agree and the same holds of what follows them.
proof fn lemma_prefix_step(a: Seq<u8>, x: Seq<Seq<u8>>, b: Seq<u8>, y: Seq<Seq<u8>>)
    ensures
        (seq![a] + x).is_prefix_of(seq![b] + y) <==> a == b && x.is_prefix_of(y),
{
    let l = seq![a] + x;
    let r = seq![b] + y;
    if l.is_prefix_of(r) {
        assert(l[0] == r.subrange(0, l.len() as int)[0]);
        assert forall|i: int| 0 <= i < x.len() implies x[i] == y.subrange(0, x.len() as int)[i] by {
            assert(l[i + 1] == r.subrange(0, l.len() as int)[i + 1]);
        }
        assert(x =~= y.subrange(0, x.len() as int));
    }
    if a == b && x.is_prefix_of(y) {
        assert forall|i: int| 0 <= i < l.len() implies l[i] == r.subrange(0, l.len() as int)[i] by {
            if i > 0 {
                assert(x[i - 1] == y.subrange(0, x.len() as int)[i - 1]);
            }
        }
        assert(l =~= r.subrange(0, l.len() as int));
    }
}

/// View of a question; it exists only over bytes that start with a
/// well-formed name.
pub struct DnsQuestion<'a> {
    buffer: &'a [u8],
}

impl<'a> DnsQuestion<'a> {
    #[verifier::type_invariant]
    spec fn measurable(self) -> bool {
        measured_len(self.buffer@) is Some
    }

    /// The bytes this view was built over, from the first length byte on.
    pub closed spec fn bytes(self) -> Seq<u8> {
        self.buffer@
    }

    /// Builds a view over `buffer` when a question can be measured at its front.
    pub fn new_checked(buffer: &'a [u8]) -> (r: Option<Self>)
        ensures
            match r {
                Some(q) => measured_len(buffer@) is Some && q.bytes() == buffer@,
                None => measured_len(buffer@) is None,
            },
    {
        match Self::length(buffer) {
            Some(_) => Some(Self { buffer }),
            None => None,
        }
    }

    /// The bytes the view was built over.
    pub fn as_bytes(&self) -> (r: &'a [u8])
        ensures
            r@ == self.bytes(),
            measured_len(r@) is Some,
    {
        proof {
            use_type_invariant(self);
        }
        self.buffer
    }

    /// Given a buffer, calculate the length of the question part of the packet
    /// in bytes: nothing when the buffer ends before the name does, or a
    /// length byte of the name is above 63.
    pub fn length(buffer: &[u8]) -> (r: Option<usize>)
        ensures
            r == measured_len(buffer@),
            forall|p: int|
                is_length_position(buffer@, p) && 0 <= p < buffer@.len() && buffer@[p]
                    > MAX_LABEL_LEN ==> r is None,
    {
        proof {
            assert forall|p: int|
                is_length_position(buffer@, p) && 0 <= p < buffer@.len() && buffer@[p]
                    > MAX_LABEL_LEN implies name_len(buffer@) is None by {
                lemma_oversized_label_has_no_length(buffer@, p);
            }
        }
        let mut pos: usize = 0;
        assert(buffer@.skip(0) == buffer@);
        while pos < buffer.len()
            invariant
                pos <= buffer@.len(),
                forall|p: int|
                    is_length_position(buffer@, p) && 0 <= p < buffer@.len() && buffer@[p]
                        > MAX_LABEL_LEN ==> name_len(buffer@) is None,
                name_len(buffer@) == match name_len(buffer@.skip(pos as int)) {
                    Some(n) => Some(pos + n),
                    None => None,
                },
            decreases buffer@.len() - pos,
        {
            let ghost rest = buffer@.skip(pos as int);
            let size: u8 = buffer[pos];
            assert(rest[0] == size);
            if size == 0 {
                return pos.checked_add(QUESTION_TAIL_SIZE);
            }
            if size > MAX_LABEL_LEN || size as usize > buffer.len() - pos - 1 {
                return None;
            }
            assert(head(rest) == Head::Label(size as int));
            assert(rest.skip(1 + size as int) == buffer@.skip(pos + 1 + size as int));
            pos += 1 + size as usize;
        }
        None
    }

    /// Tells whether the name at the front of `buffer` is the dotted name `s`
    /// or a name below it.
    pub fn matches(buffer: &[u8], s: &str) -> (r: bool)
        ensures
            r == name_matches(buffer@, s.spec_bytes()),
    {
        let name: &[u8] = s.as_bytes();
        let mut it = AddressIter::new(buffer);
        let mut start: usize = 0;
        assert(name@.skip(0) == name@);
        loop
            invariant
                start <= name@.len(),
                name@ == s.spec_bytes(),
                name_matches(buffer@, name@) == dotted_labels(name@.skip(start as int)).is_prefix_of(
                    labels(it.remaining()),
                ),
            decreases name@.len() - start,
        {
            let ghost expected = name@.skip(start as int);
            let ghost found = it.remaining();
            let end: usize = next_dot(name, start);
            let ghost piece = if end < name@.len() {
                expected.take(end - start)
            } else {
                expected
            };
            let ghost pieces_after = if end < name@.len() {
                dotted_labels(expected.skip(end - start + 1))
            } else {
                Seq::<Seq<u8>>::empty()
            };
            assert(dotted_labels(expected) == seq![piece] + pieces_after);
            match it.next() {
                Some(Ok(label)) => {
                    let ghost n = head(found)->Label_0;
                    proof {
                        lemma_prefix_step(piece, pieces_after, label@, labels(found.skip(1 + n)));
                    }
                    let wanted: &[u8] = &name[start..end];
                    assert(wanted@ == piece);
                    if !same_bytes(label, wanted) {
                        return false;
                    }
                    if end == name.len() {
                        return true;
                    }
                    assert(expected.skip(end - start + 1) == name@.skip(end + 1));
                    start = end + 1;
                },
                _ => {
                    assert(labels(found).len() == 0);
                    return false;
                },
            }
        }
    }
}

} // verus!
