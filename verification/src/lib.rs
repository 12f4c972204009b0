//! Verified core of a captive-portal access point: DNS wire-format views, the
//! in-place query-to-response rewriter, the HTTP host-routing decision, and
//! the pixel grid that display states draw on.

pub mod address;
pub mod config;
pub mod display;
pub mod header;
pub mod hostname;
pub mod labels;
pub mod packet;
pub mod portal;
pub mod question;
pub mod window;
