//! View of a whole DNS message, and the rewriter that turns a query into its
//! answer inside the buffer that holds it.
//!
//! The answer is one A record of class IN with a time to live of one second,
//! so that clients ask again soon after they leave the portal. Its name is a
//! compression pointer to offset 12, where the question's name still stands.

use vstd::prelude::*;
use vstd::string::StringSliceAdditionalSpecFns;
use crate::address::Ipv4Address;
use crate::header::is_query_bytes;
use crate::header::opcode_of;
use crate::header::question_count_of;
use crate::header::DnsHeader;
use crate::header::DNS_HEADER_SIZE;
use crate::hostname::dotted_labels;
use crate::hostname::first_dot;
use crate::hostname::HOSTNAME;
use crate::labels::head;
use crate::labels::labels;
use crate::labels::lemma_name_ends_at_terminator;
use crate::labels::lemma_name_len_bounds;
use crate::labels::lemma_same_front;
use crate::labels::name_len;
use crate::labels::Head;
use crate::question::name_matches;
use crate::question::question_len;
use crate::question::DnsQuestion;

verus! {

/// Bytes of the answer record up to its address: name pointer, type, class,
/// time to live and data length.
pub const ANSWER_PREFIX_SIZE: usize = 12;

/// Bytes of the whole answer record: its prefix and the four address bytes.
pub const ANSWER_SIZE: usize = 16;

/// The query is one this crate answers, and its buffer has room for the answer.
pub open spec fn answerable(query: Seq<u8>) -> bool {
    &&& query.len() >= DNS_HEADER_SIZE
    &&& is_query_bytes(query)
    &&& opcode_of(query) == 0
    &&& question_count_of(query) == 1
    &&& question_len(query.skip(DNS_HEADER_SIZE as int)) is Some
    &&& answer_start(query) + ANSWER_SIZE <= query.len()
}

/// The query is answerable, and its header and question lie in the first
/// `query_len` bytes of the buffer.
pub open spec fn answerable_within(buffer: Seq<u8>, query_len: int) -> bool {
    &&& query_len <= buffer.len()
    &&& answerable(buffer)
    &&& answer_start(buffer) <= query_len
}

/// Offset right behind the single question, where the answer record goes.
pub open spec fn answer_start(query: Seq<u8>) -> int {
    DNS_HEADER_SIZE + question_len(query.skip(DNS_HEADER_SIZE as int))->0
}

/// The header of the response: identifier and question count are the
/// query's; the flags say response with recursion desired and available;
/// one answer, no authority and no additional records.
pub open spec fn response_header(query: Seq<u8>) -> Seq<u8> {
    seq![query[0], query[1], 0x81u8, 0x80u8, query[4], query[5], 0u8, 1u8, 0u8, 0u8, 0u8, 0u8]
}

/// The answer record for `address`.
pub open spec fn answer_record(address: Seq<u8>) -> Seq<u8> {
    seq![0xc0u8, 12u8, 0u8, 1u8, 0u8, 1u8, 0u8, 0u8, 0u8, 1u8, 0u8, 4u8] + address
}

/// The address a query is answered with: `primary` when it asks for `name`
/// or a name below it, `secondary` for every other name.
pub open spec fn answer_address(
    query: Seq<u8>,
    name: Seq<u8>,
    primary: Ipv4Address,
    secondary: Ipv4Address,
) -> Ipv4Address {
    if name_matches(query.skip(DNS_HEADER_SIZE as int), name) {
        primary
    } else {
        secondary
    }
}

/// The response to an answerable query: the patched header, the question as
/// it came, and the answer record.
pub open spec fn response(
    query: Seq<u8>,
    name: Seq<u8>,
    primary: Ipv4Address,
    secondary: Ipv4Address,
) -> Seq<u8> {
    response_header(query) + query.subrange(DNS_HEADER_SIZE as int, answer_start(query))
        + answer_record(answer_address(query, name, primary, secondary).octets())
}

/// The response to an answerable query ends sixteen bytes behind the
/// question, and its last four bytes are the address it was answered with.
pub proof fn lemma_response_shape(
    query: Seq<u8>,
    name: Seq<u8>,
    primary: Ipv4Address,
    secondary: Ipv4Address,
)
    requires
        answerable(query),
    ensures
        response(query, name, primary, secondary).len() == answer_start(query) + ANSWER_SIZE,
        response(query, name, primary, secondary).skip(answer_start(query) + ANSWER_PREFIX_SIZE)
            == answer_address(query, name, primary, secondary).octets(),
        answer_address(query, name, primary, secondary) == primary || answer_address(
            query,
            name,
            primary,
            secondary,
        ) == secondary,
{
    lemma_name_len_bounds(query.skip(DNS_HEADER_SIZE as int));
    let address = answer_address(query, name, primary, secondary).octets();
    let whole = response(query, name, primary, secondary);
    assert(address.len() == 4);
    assert(whole.skip(answer_start(query) + ANSWER_PREFIX_SIZE) =~= address);
}

/// A response is not taken for a query: read back as a header, the front of
/// the response to an answerable query has its response flag set. Opcode and
/// question count stay as the query had them.
pub proof fn lemma_response_is_no_query(
    query: Seq<u8>,
    name: Seq<u8>,
    primary: Ipv4Address,
    secondary: Ipv4Address,
)
    requires
        answerable(query),
    ensures
        response(query, name, primary, secondary).len() >= DNS_HEADER_SIZE,
        !is_query_bytes(response(query, name, primary, secondary)),
        opcode_of(response(query, name, primary, secondary)) == 0,
        question_count_of(response(query, name, primary, secondary)) == 1,
        !answerable(response(query, name, primary, secondary)),
{
    lemma_name_len_bounds(query.skip(DNS_HEADER_SIZE as int));
    let whole = response(query, name, primary, secondary);
    assert(whole[2] == 0x81u8);
    assert(whole[4] == query[4]);
    assert(whole[5] == query[5]);
}

/// A standard query with one question for a name of a single label is
/// answered whenever the buffer has sixteen bytes to spare behind the
/// question: with `primary` where the label is the dot-free `name`, with
/// `secondary` for every other label.
pub proof fn lemma_single_label_query(
    query: Seq<u8>,
    label: Seq<u8>,
    name: Seq<u8>,
    primary: Ipv4Address,
    secondary: Ipv4Address,
)
    requires
        1 <= label.len() <= 63,
        query.len() >= DNS_HEADER_SIZE + 1 + label.len() + 5 + ANSWER_SIZE,
        is_query_bytes(query),
        opcode_of(query) == 0,
        question_count_of(query) == 1,
        query[DNS_HEADER_SIZE as int] == label.len(),
        query.subrange(DNS_HEADER_SIZE + 1, DNS_HEADER_SIZE + 1 + label.len()) == label,
        query[DNS_HEADER_SIZE + 1 + label.len()] == 0,
        first_dot(name) == name.len(),
    ensures
        answerable(query),
        answer_start(query) == DNS_HEADER_SIZE + 1 + label.len() + 5,
        response(query, name, primary, secondary).len() == answer_start(query) + ANSWER_SIZE,
        answer_address(query, name, primary, secondary) == if label == name {
            primary
        } else {
            secondary
        },
        response(query, name, primary, secondary).skip(answer_start(query) + ANSWER_PREFIX_SIZE)
            == answer_address(query, name, primary, secondary).octets(),
{
    let question = query.skip(DNS_HEADER_SIZE as int);
    let size = label.len() as int;
    let rest = question.skip(1 + size);
    assert(question[0] == size);
    assert(head(question) == Head::Label(size));
    assert(question.subrange(1, 1 + size) =~= label);
    assert(rest[0] == 0);
    assert(head(rest) == Head::Terminator);
    assert(name_len(rest) == Some(0int));
    assert(name_len(question) == Some(1 + size));
    assert(labels(rest) =~= Seq::<Seq<u8>>::empty());
    assert(labels(question) =~= seq![label]);
    assert(dotted_labels(name) =~= seq![name]);
    assert(name_matches(question, name) == (label == name)) by {
        if label == name {
            assert(seq![name] =~= seq![label].subrange(0, 1));
        } else {
            assert(seq![label].subrange(0, 1)[0] == label);
        }
    }
    lemma_response_shape(query, name, primary, secondary);
}

/// Only the datagram decides the answer: two buffers of one size that hold
/// the same first `query_len` bytes are answered alike, with the same bytes.
pub proof fn lemma_answer_reads_the_datagram_only(
    buffer: Seq<u8>,
    other: Seq<u8>,
    query_len: int,
    name: Seq<u8>,
    primary: Ipv4Address,
    secondary: Ipv4Address,
)
    requires
        buffer.len() == other.len(),
        0 <= query_len <= buffer.len(),
        buffer.take(query_len) == other.take(query_len),
    ensures
        answerable_within(buffer, query_len) == answerable_within(other, query_len),
        answerable_within(buffer, query_len) ==> response(buffer, name, primary, secondary)
            == response(other, name, primary, secondary),
{
    if answerable_within(buffer, query_len) {
        lemma_same_datagram_same_answer(buffer, other, query_len, name, primary, secondary);
    }
    if answerable_within(other, query_len) {
        lemma_same_datagram_same_answer(other, buffer, query_len, name, primary, secondary);
    }
}

proof fn lemma_same_datagram_same_answer(
    buffer: Seq<u8>,
    other: Seq<u8>,
    query_len: int,
    name: Seq<u8>,
    primary: Ipv4Address,
    secondary: Ipv4Address,
)
    requires
        buffer.len() == other.len(),
        buffer.take(query_len) == other.take(query_len),
        answerable_within(buffer, query_len),
    ensures
        answerable_within(other, query_len),
        response(buffer, name, primary, secondary) == response(other, name, primary, secondary),
{
    let start = DNS_HEADER_SIZE as int;
    let question = buffer.skip(start);
    let other_question = other.skip(start);
    lemma_name_len_bounds(question);
    assert forall|i: int| 0 <= i < query_len implies #[trigger] buffer[i] == other[i] by {
        lemma_same_front(buffer, other, query_len, i);
    }
    assert(question.take(query_len - start) =~= other_question.take(query_len - start));
    lemma_name_ends_at_terminator(question, other_question, query_len - start);
    assert(buffer.subrange(start, answer_start(buffer)) =~= other.subrange(
        start,
        answer_start(other),
    ));
}

/// Once a question cannot be reached, none behind it can.
proof fn lemma_question_offset_stays_none(packet: Seq<u8>, n: nat, m: nat)
    requires
        n <= m,
        question_offset(packet, n) is None,
    ensures
        question_offset(packet, m) is None,
    decreases m,
{
    if n < m {
        lemma_question_offset_stays_none(packet, n, (m - 1) as nat);
    }
}

/// Writes `bytes` into `buffer` from offset `at` on.
fn write_at(buffer: &mut [u8], at: usize, bytes: &[u8])
    requires
        at + bytes@.len() <= old(buffer)@.len(),
    ensures
        final(buffer)@ == old(buffer)@.take(at as int) + bytes@ + old(buffer)@.skip(
            at + bytes@.len(),
        ),
{
    let size: usize = buffer.len();
    let mut i: usize = 0;
    while i < bytes.len()
        invariant
            i <= bytes@.len(),
            at + bytes@.len() <= size,
            buffer@.len() == size,
            old(buffer)@.len() == size,
            forall|j: int| 0 <= j < at ==> buffer@[j] == old(buffer)@[j],
            forall|j: int| 0 <= j < i ==> buffer@[at + j] == bytes@[j],
            forall|j: int| at + i <= j < buffer@.len() ==> buffer@[j] == old(buffer)@[j],
        decreases bytes@.len() - i,
    {
        buffer[at + i] = bytes[i];
        i += 1;
    }
    assert(buffer@ =~= old(buffer)@.take(at as int) + bytes@ + old(buffer)@.skip(
        at + bytes@.len(),
    ));
}

/// Writes the answer record for `address` into `buffer` from offset `at` on.
fn write_answer(buffer: &mut [u8], at: usize, address: &Ipv4Address)
    requires
        at + ANSWER_SIZE <= old(buffer)@.len(),
    ensures
        final(buffer)@ == old(buffer)@.take(at as int) + answer_record(address.octets()) + old(
            buffer,
        )@.skip(at + ANSWER_SIZE),
{
    let size: usize = buffer.len();
    assert(at + ANSWER_SIZE <= size);
    let prefix: [u8; 12] = [0xc0, 12, 0, 1, 0, 1, 0, 0, 0, 1, 0, 4];
    write_at(buffer, at, prefix.as_slice());
    write_at(buffer, at + ANSWER_PREFIX_SIZE, address.as_bytes());
    assert(buffer@ =~= old(buffer)@.take(at as int) + answer_record(address.octets()) + old(
        buffer,
    )@.skip(at + ANSWER_SIZE));
}

/// Turns the header at the front of `buffer` into that of the response.
fn patch_header(buffer: &mut [u8])
    requires
        old(buffer)@.len() >= DNS_HEADER_SIZE,
    ensures
        final(buffer)@ == response_header(old(buffer)@) + old(buffer)@.skip(
            DNS_HEADER_SIZE as int,
        ),
{
    // this is a response
    buffer[2] = 0x81;
    buffer[3] = 0x80;
    // set answer count to 1
    buffer[6] = 0;
    buffer[7] = 1;
    buffer[8] = 0;
    buffer[9] = 0;
    buffer[10] = 0;
    buffer[11] = 0;
    assert(buffer@ =~= response_header(old(buffer)@) + old(buffer)@.skip(DNS_HEADER_SIZE as int));
}

/// Offset at which question `n` of `packet` starts: the questions stand one
/// behind the other from the end of the header, so each one before it has to
/// be measured, and has to end inside the packet.
pub open spec fn question_offset(packet: Seq<u8>, n: nat) -> Option<int>
    decreases n,
{
    if n == 0 {
        Some(DNS_HEADER_SIZE as int)
    } else {
        match question_offset(packet, (n - 1) as nat) {
            Some(at) => match question_len(packet.skip(at)) {
                Some(len) if at + len <= packet.len() => Some(at + len),
                _ => None,
            },
            None => None,
        }
    }
}

/// View of a DNS message; it exists only over a whole header.
pub struct DnsPacket<'a> {
    buffer: &'a [u8],
}

impl<'a> DnsPacket<'a> {
    #[verifier::type_invariant]
    spec fn has_header(self) -> bool {
        self.buffer@.len() >= DNS_HEADER_SIZE
    }

    /// The bytes this view was built over.
    pub closed spec fn bytes(self) -> Seq<u8> {
        self.buffer@
    }

    /// Builds a packet view, or nothing when the buffer cannot hold a header.
    pub fn new_checked(buffer: &'a [u8]) -> (r: Option<Self>)
        ensures
            r is Some <==> buffer@.len() >= DNS_HEADER_SIZE,
            r is Some ==> r->0.bytes() == buffer@,
    {
        if buffer.len() < DNS_HEADER_SIZE {
            None
        } else {
            Some(Self { buffer })
        }
    }

    /// The header of this packet.
    pub fn header<'b>(&self) -> (r: DnsHeader<'b>) where 'a: 'b
        ensures
            r.bytes() == self.bytes(),
    {
        proof {
            use_type_invariant(self);
        }
        DnsHeader::over(self.buffer)
    }

    /// get the `question`th question from this packet
    pub fn question<'b>(&self, question: u16) -> (r: Option<DnsQuestion<'b>>) where 'a: 'b
        ensures
            r is Some <==> {
                &&& question < question_count_of(self.bytes())
                &&& question_offset(self.bytes(), question as nat) is Some
                &&& question_len(
                    self.bytes().skip(question_offset(self.bytes(), question as nat)->0),
                ) is Some
            },
            r is Some ==> r->0.bytes() == self.bytes().skip(
                question_offset(self.bytes(), question as nat)->0,
            ),
    {
        proof {
            use_type_invariant(self);
        }
        let buffer: &'b [u8] = self.buffer;
        if question >= self.header().question_count() {
            return None;
        }
        let mut offset: usize = DNS_HEADER_SIZE;
        let mut skipped: u16 = 0;
        while skipped < question
            invariant
                skipped <= question,
                buffer@ == self.bytes(),
                question < question_count_of(self.bytes()),
                DNS_HEADER_SIZE <= offset <= buffer@.len(),
                question_offset(buffer@, skipped as nat) == Some(offset as int),
            decreases question - skipped,
        {
            let rest: &[u8] = &buffer[offset..buffer.len()];
            assert(rest@ == buffer@.skip(offset as int));
            proof {
                if question_len(rest@) is Some {
                    lemma_name_len_bounds(rest@);
                }
            }
            let next: usize = match DnsQuestion::length(rest) {
                Some(n) if n <= buffer.len() - offset => offset + n,
                _ => {
                    proof {
                        assert(question_offset(buffer@, (skipped + 1) as nat) is None);
                        lemma_question_offset_stays_none(
                            buffer@,
                            (skipped + 1) as nat,
                            question as nat,
                        );
                    }
                    return None;
                },
            };
            offset = next;
            skipped += 1;
        }
        let rest: &'b [u8] = &buffer[offset..buffer.len()];
        assert(rest@ == buffer@.skip(offset as int));
        proof {
            if question_len(rest@) is Some {
                lemma_name_len_bounds(rest@);
            }
        }
        DnsQuestion::new_checked(rest)
    }

    /// Answers the query in `query_buffer` in place for the name `HOSTNAME`:
    /// see `rewrite`.
    pub fn transform_query_to_response<'buffer>(
        query_buffer: &'buffer mut [u8],
        primary_ip_address: Ipv4Address,
        secondary_ip_address: Ipv4Address,
    ) -> (r: Option<&'buffer [u8]>)
        ensures
            r is Some <==> answerable(old(query_buffer)@),
            r is None ==> final(query_buffer)@ == old(query_buffer)@,
            r is Some ==> r->0@ == response(
                old(query_buffer)@,
                HOSTNAME.spec_bytes(),
                primary_ip_address,
                secondary_ip_address,
            ),
            r is Some ==> final(query_buffer)@ == r->0@ + old(query_buffer)@.skip(
                r->0@.len() as int,
            ),
            r is Some ==> r->0@.len() == answer_start(old(query_buffer)@) + ANSWER_SIZE,
            r is Some ==> r->0@.skip(r->0@.len() - 4) == answer_address(
                old(query_buffer)@,
                HOSTNAME.spec_bytes(),
                primary_ip_address,
                secondary_ip_address,
            ).octets(),
            r is Some ==> !is_query_bytes(r->0@),
    {
        Self::rewrite(query_buffer, HOSTNAME, primary_ip_address, secondary_ip_address)
    }

    /// Answers the query in `query_buffer` in place and returns the response,
    /// which is the front of the buffer. `hostname` is the dotted name that is
    /// answered with `primary_ip_address`; every other name is answered with
    /// `secondary_ip_address`. A query that is not answerable is left as it is
    /// and nothing is returned.
    pub fn rewrite<'buffer>(
        query_buffer: &'buffer mut [u8],
        hostname: &str,
        primary_ip_address: Ipv4Address,
        secondary_ip_address: Ipv4Address,
    ) -> (r: Option<&'buffer [u8]>)
        ensures
            r is Some <==> answerable(old(query_buffer)@),
            r is None ==> final(query_buffer)@ == old(query_buffer)@,
            r is Some ==> r->0@ == response(
                old(query_buffer)@,
                hostname.spec_bytes(),
                primary_ip_address,
                secondary_ip_address,
            ),
            r is Some ==> final(query_buffer)@ == r->0@ + old(query_buffer)@.skip(
                r->0@.len() as int,
            ),
            r is Some ==> r->0@.len() == answer_start(old(query_buffer)@) + ANSWER_SIZE,
            r is Some ==> r->0@.skip(r->0@.len() - 4) == answer_address(
                old(query_buffer)@,
                hostname.spec_bytes(),
                primary_ip_address,
                secondary_ip_address,
            ).octets(),
            r is Some ==> !is_query_bytes(r->0@),
    {
        let query_len: usize = query_buffer.len();
        Self::rewrite_datagram(
            query_buffer,
            query_len,
            hostname,
            primary_ip_address,
            secondary_ip_address,
        )
    }

    /// Answers in place the query that a datagram of `query_len` bytes left at
    /// the front of `query_buffer`, as `rewrite` does. The header and the
    /// question have to lie inside the datagram; the answer may take the room
    /// behind it. What the buffer holds behind the datagram is not read.
    pub fn rewrite_datagram<'buffer>(
        query_buffer: &'buffer mut [u8],
        query_len: usize,
        hostname: &str,
        primary_ip_address: Ipv4Address,
        secondary_ip_address: Ipv4Address,
    ) -> (r: Option<&'buffer [u8]>)
        ensures
            r is Some <==> answerable_within(old(query_buffer)@, query_len as int),
            r is None ==> final(query_buffer)@ == old(query_buffer)@,
            r is Some ==> r->0@ == response(
                old(query_buffer)@,
                hostname.spec_bytes(),
                primary_ip_address,
                secondary_ip_address,
            ),
            r is Some ==> final(query_buffer)@ == r->0@ + old(query_buffer)@.skip(
                r->0@.len() as int,
            ),
            r is Some ==> r->0@.len() == answer_start(old(query_buffer)@) + ANSWER_SIZE,
            r is Some ==> r->0@.skip(r->0@.len() - 4) == answer_address(
                old(query_buffer)@,
                hostname.spec_bytes(),
                primary_ip_address,
                secondary_ip_address,
            ).octets(),
            r is Some ==> !is_query_bytes(r->0@),
    {
        let ghost query = query_buffer@;
        if query_len > query_buffer.len() {
            return None;
        }
        let header = match DnsHeader::new_checked(&*query_buffer) {
            Some(header) => header,
            None => {
                return None;
            },
        };
        if !header.is_query() {
            return None;
        }
        if !header.is_standard_query() {
            return None;
        }
        // only respond to queries with one question
        if header.question_count() != 1 {
            return None;
        }
        let room: usize = query_buffer.len() - DNS_HEADER_SIZE;
        let question: &[u8] = &query_buffer[DNS_HEADER_SIZE..query_buffer.len()];
        assert(question@ == query.skip(DNS_HEADER_SIZE as int));
        let question_length: usize = match DnsQuestion::length(question) {
            Some(n) => n,
            None => {
                proof {
                    if question_len(question@) is Some {
                        lemma_name_len_bounds(question@);
                    }
                }
                return None;
            },
        };
        proof {
            lemma_name_len_bounds(question@);
        }
        if question_length > room || room - question_length < ANSWER_SIZE {
            return None;
        }
        if query_len < DNS_HEADER_SIZE || question_length > query_len - DNS_HEADER_SIZE {
            return None;
        }
        let address_matches: bool = DnsQuestion::matches(question, hostname);
        let answer_start: usize = DNS_HEADER_SIZE + question_length;
        let address: Ipv4Address = if address_matches {
            primary_ip_address
        } else {
            secondary_ip_address
        };

        write_answer(query_buffer, answer_start, &address);
        let ghost answered = query_buffer@;
        patch_header(query_buffer);

        let end: usize = answer_start + ANSWER_SIZE;
        let ghost expected = response(
            query,
            hostname.spec_bytes(),
            primary_ip_address,
            secondary_ip_address,
        );
        assert(response_header(answered) == response_header(query));
        assert(query_buffer@ =~= expected + query.skip(end as int));
        let out: &'buffer [u8] = &query_buffer[0..end];
        assert(out@ =~= expected);
        proof {
            lemma_response_shape(
                query,
                hostname.spec_bytes(),
                primary_ip_address,
                secondary_ip_address,
            );
            lemma_response_is_no_query(
                query,
                hostname.spec_bytes(),
                primary_ip_address,
                secondary_ip_address,
            );
        }
        Some(out)
    }
}

} // verus!
