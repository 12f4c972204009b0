//! The captive-portal decision for HTTP: which requests get the portal page
//! and which are sent to it.
//!
//! Only the `Host` header is looked at. A request is for the portal when the
//! header holds a dot and what stands before its first dot is the portal's
//! host name; a header without a dot, another name, or no header at all gets
//! a redirect to the portal's address.

use vstd::prelude::*;
use vstd::string::StringExecFns;
use vstd::string::StringSliceAdditionalSpecFns;
use crate::hostname::first_dot;
use crate::hostname::lemma_first_dot;
use crate::hostname::DOT;
use crate::hostname::next_dot;
use crate::hostname::same_bytes;
use crate::hostname::HOSTNAME;

verus! {

/// Where every request that is not for the portal is sent.
pub const PORTAL_URL: &'static str = "http://picohttp.piconet.local";

/// Status of the reply that carries the portal page.
pub const STATUS_OK: u16 = 200;

/// Status of the reply that sends the client to the portal.
pub const STATUS_FOUND: u16 = 302;

/// What stands before the first dot of `host`; nothing when `host` has no dot.
pub open spec fn host_prefix(host: Seq<u8>) -> Option<Seq<u8>> {
    let cut = first_dot(host);
    if 0 <= cut < host.len() {
        Some(host.take(cut))
    } else {
        None
    }
}

/// The request with this `Host` header is for the portal named `hostname`.
pub open spec fn is_for_portal(host: Option<&str>, hostname: Seq<u8>) -> bool {
    match host {
        Some(h) => host_prefix(h.spec_bytes()) == Some(hostname),
        None => false,
    }
}

/// The redirect leads to the portal: its location is `http://`, then a host
/// whose first label is the portal's name, so a request that follows it is
/// served the page.
pub proof fn lemma_redirect_leads_to_the_portal()
    ensures
        PORTAL_URL@ == "http://"@ + "picohttp.piconet.local"@,
        is_for_portal(Some("picohttp.piconet.local"), HOSTNAME.spec_bytes()),
{
    reveal_strlit("http://picohttp.piconet.local");
    reveal_strlit("http://");
    reveal_strlit("picohttp.piconet.local");
    reveal_strlit("picohttp");
    assert(PORTAL_URL@ =~= "http://"@ + "picohttp.piconet.local"@);
    vstd::string::is_ascii_spec_bytes("picohttp.piconet.local");
    vstd::string::is_ascii_spec_bytes(HOSTNAME);
    let host = "picohttp.piconet.local".spec_bytes();
    assert(host[8] == DOT);
    lemma_first_dot(host, 8);
    assert(host.take(8) =~= HOSTNAME.spec_bytes());
}

/// The two replies the portal gives. Both ask for the connection to be closed.
#[derive(Clone, Copy, Debug, PartialEq, Eq)]
pub enum PortalReply {
    /// The portal page itself.
    Portal,
    /// A redirect to `PORTAL_URL`.
    Redirect,
}

impl PortalReply {
    /// The status code of the reply.
    pub fn status(&self) -> (r: u16)
        ensures
            r == match *self {
                PortalReply::Portal => STATUS_OK,
                PortalReply::Redirect => STATUS_FOUND,
            },
    {
        match self {
            PortalReply::Portal => STATUS_OK,
            PortalReply::Redirect => STATUS_FOUND,
        }
    }

    /// The value of the `Location` header, which only a redirect has.
    pub fn location(&self) -> (r: Option<&'static str>)
        ensures
            r == match *self {
                PortalReply::Portal => None::<&str>,
                PortalReply::Redirect => Some(PORTAL_URL),
            },
    {
        match self {
            PortalReply::Portal => None,
            PortalReply::Redirect => Some(PORTAL_URL),
        }
    }

    /// The plain-text body of a redirect: the location on a line of its own.
    /// The portal page is not this crate's to give.
    pub fn body(&self) -> (r: Option<String>)
        ensures
            match *self {
                PortalReply::Portal => r is None,
                PortalReply::Redirect => r is Some && r->0@ == PORTAL_URL@ + "\n"@,
            },
    {
        match self {
            PortalReply::Portal => None,
            PortalReply::Redirect => Some(String::from_str(PORTAL_URL).concat("\n")),
        }
    }

    /// Whether the reply carries `Connection: close`. Every reply does.
    pub fn closes_connection(&self) -> (r: bool)
        ensures
            r,
    {
        true
    }
}

/// Decides the reply to a request by its `Host` header, for a portal that
/// goes by `hostname`.
pub fn route_host(host: Option<&str>, hostname: &str) -> (r: PortalReply)
    ensures
        r == if is_for_portal(host, hostname.spec_bytes()) {
            PortalReply::Portal
        } else {
            PortalReply::Redirect
        },
{
    match host {
        Some(h) => {
            let bytes: &[u8] = h.as_bytes();
            assert(bytes@.skip(0) == bytes@);
            let cut: usize = next_dot(bytes, 0);
            if cut < bytes.len() && same_bytes(&bytes[0..cut], hostname.as_bytes()) {
                PortalReply::Portal
            } else {
                PortalReply::Redirect
            }
        },
        None => PortalReply::Redirect,
    }
}

/// Decides the reply to a request by its `Host` header, for the portal named
/// `HOSTNAME`.
pub fn route_request(host: Option<&str>) -> (r: PortalReply)
    ensures
        r == if is_for_portal(host, HOSTNAME.spec_bytes()) {
            PortalReply::Portal
        } else {
            PortalReply::Redirect
        },
{
    route_host(host, HOSTNAME)
}

} // verus!
