//! Keeps the DNS records of a zone in step with the addresses of this host's
//! network interfaces: resolve each desired record to an address, compare it
//! with what the provider holds, and create or update what differs.

use vstd::prelude::*;

pub mod config;
pub mod dns_providers;
pub mod ip;
pub mod providers;
pub mod update;

verus! {

} // verus!
