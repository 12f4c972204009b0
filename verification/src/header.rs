//! Read-only view of the fixed twelve-byte header that opens every DNS message.

use vstd::prelude::*;

verus! {

/// A DNS header is 12 bytes.
pub const DNS_HEADER_SIZE: usize = 12;

/// True when the QR bit (top bit of the flags byte at offset 2) is clear.
pub open spec fn is_query_bytes(bytes: Seq<u8>) -> bool {
    bytes[2] < 0x80
}

/// The four-bit OPCODE field, bits 3..=6 of the flags byte at offset 2.
pub open spec fn opcode_of(bytes: Seq<u8>) -> int {
    (bytes[2] as int / 8) % 16
}

/// The big-endian QDCOUNT field at offsets 4 and 5.
pub open spec fn question_count_of(bytes: Seq<u8>) -> int {
    bytes[4] as int * 256 + bytes[5] as int
}

/// View of a DNS header; it exists only over at least twelve bytes.
pub struct DnsHeader<'a> {
    buffer: &'a [u8],
}

impl<'a> DnsHeader<'a> {
    #[verifier::type_invariant]
    spec fn long_enough(self) -> bool {
        self.buffer@.len() >= DNS_HEADER_SIZE
    }

    /// The bytes this header was built over.
    pub closed spec fn bytes(self) -> Seq<u8> {
        self.buffer@
    }

    /// Builds a header view, or nothing when fewer than twelve bytes are given.
    pub fn new_checked(buffer: &'a [u8]) -> (r: Option<Self>)
        ensures
            buffer@.len() < DNS_HEADER_SIZE ==> r is None,
            buffer@.len() >= DNS_HEADER_SIZE ==> r is Some && r->0.bytes() == buffer@,
    {
        if buffer.len() < DNS_HEADER_SIZE {
            None
        } else {
            Some(Self { buffer })
        }
    }

    /// Builds a header view over a buffer known to hold a whole header.
    pub(crate) fn over(buffer: &'a [u8]) -> (r: Self)
        requires
            buffer@.len() >= DNS_HEADER_SIZE,
        ensures
            r.bytes() == buffer@,
    {
        Self { buffer }
    }

    /// True when the message is a query, not a response.
    pub fn is_query(&self) -> (r: bool)
        ensures
            r == is_query_bytes(self.bytes()),
    {
        proof {
            use_type_invariant(self);
        }
        let flags: u8 = self.buffer[2];
        assert(((flags >> 7) & 1 == 0) == (flags < 0x80)) by (bit_vector);
        ((flags >> 7) & 1) == 0
    }

    /// True when the operation asked for is a standard query, opcode 0.
    pub fn is_standard_query(&self) -> (r: bool)
        ensures
            r == (opcode_of(self.bytes()) == 0),
    {
        proof {
            use_type_invariant(self);
        }
        let flags: u8 = self.buffer[2];
        assert(((flags >> 3) & 0xf) == (flags / 8) % 16) by (bit_vector);
        ((flags >> 3) & 0xf) == 0
    }

    /// Number of entries in the question section.
    pub fn question_count(&self) -> (r: u16)
        ensures
            r == question_count_of(self.bytes()),
    {
        proof {
            use_type_invariant(self);
        }
        let hi: u8 = self.buffer[4];
        let lo: u8 = self.buffer[5];
        assert((((hi as u16) << 8) | (lo as u16)) == (hi as u16) * 256 + (lo as u16)) by (bit_vector);
        ((hi as u16) << 8) | (lo as u16)
    }
}

} // verus!
