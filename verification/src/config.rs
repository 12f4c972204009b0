//! The settings of a captive portal, fixed when the device starts and read by
//! the DNS rewriter and the HTTP layer alike.

use vstd::prelude::*;
use vstd::string::StringSliceAdditionalSpecFns;
use crate::address::Ipv4Address;
use crate::packet::answerable_within;
use crate::packet::response;
use crate::packet::DnsPacket;
use crate::portal::is_for_portal;
use crate::portal::route_host;
use crate::portal::PortalReply;

verus! {

/// The name the portal goes by and the two addresses names resolve to. It
/// cannot be changed once made.
#[derive(Clone, Copy, Debug)]
pub struct CaptivePortalConfig<'a> {
    canonical_hostname: &'a str,
    device_address: Ipv4Address,
    outside_address: Ipv4Address,
}

impl<'a> CaptivePortalConfig<'a> {
    /// The dotted name the portal goes by.
    pub closed spec fn hostname(self) -> &'a str {
        self.canonical_hostname
    }

    /// The device's own address, which the portal's name resolves to.
    pub closed spec fn device(self) -> Ipv4Address {
        self.device_address
    }

    /// The address every other name resolves to.
    pub closed spec fn outside(self) -> Ipv4Address {
        self.outside_address
    }

    /// Settings for a portal that goes by `canonical_hostname` on a device at
    /// `device_address`.
    pub fn new(
        canonical_hostname: &'a str,
        device_address: Ipv4Address,
        outside_address: Ipv4Address,
    ) -> (r: Self)
        ensures
            r.hostname() == canonical_hostname,
            r.device() == device_address,
            r.outside() == outside_address,
    {
        Self { canonical_hostname, device_address, outside_address }
    }

    /// The dotted name the portal goes by.
    pub fn canonical_hostname(&self) -> (r: &'a str)
        ensures
            r == self.hostname(),
    {
        self.canonical_hostname
    }

    /// The device's own address.
    pub fn device_address(&self) -> (r: Ipv4Address)
        ensures
            r == self.device(),
    {
        self.device_address
    }

    /// The address every name but the portal's resolves to.
    pub fn outside_address(&self) -> (r: Ipv4Address)
        ensures
            r == self.outside(),
    {
        self.outside_address
    }

    /// Answers in place the DNS query that a datagram of `query_len` bytes
    /// left at the front of `query_buffer`: the portal's name and the names
    /// below it with the device's address, every other name with the outside
    /// address. Returns the response, which is the front of the buffer, or
    /// nothing, with the buffer as it was, for a query that is not answerable
    /// or does not lie inside the datagram.
    pub fn answer<'buffer>(&self, query_buffer: &'buffer mut [u8], query_len: usize) -> (r: Option<
        &'buffer [u8],
    >)
        ensures
            r is Some <==> answerable_within(old(query_buffer)@, query_len as int),
            r is None ==> final(query_buffer)@ == old(query_buffer)@,
            r is Some ==> r->0@ == response(
                old(query_buffer)@,
                self.hostname().spec_bytes(),
                self.device(),
                self.outside(),
            ),
            r is Some ==> final(query_buffer)@ == r->0@ + old(query_buffer)@.skip(
                r->0@.len() as int,
            ),
    {
        DnsPacket::rewrite_datagram(
            query_buffer,
            query_len,
            self.canonical_hostname,
            self.device_address,
            self.outside_address,
        )
    }

    /// Decides the reply to an HTTP request by its `Host` header: the portal
    /// page where what stands before the header's first dot is the portal's
    /// name, a redirect otherwise.
    pub fn route(&self, host: Option<&str>) -> (r: PortalReply)
        ensures
            r == if is_for_portal(host, self.hostname().spec_bytes()) {
                PortalReply::Portal
            } else {
                PortalReply::Redirect
            },
    {
        route_host(host, self.canonical_hostname)
    }
}

} // verus!
