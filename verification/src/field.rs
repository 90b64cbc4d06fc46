//! Byte ranges of every field of the wire format.
//!
//! A range is relative to the start of the structure it belongs to. The
//! ranges of the variable-length arrays depend on the lengths stored in
//! front of them and are functions of those lengths.

use vstd::prelude::*;

pub mod configuration_option;
pub mod entries;
pub mod event_group_entry;
pub mod header;
pub mod ipv4_endpoint_option;
pub mod ipv4_multicast_option;
pub mod ipv4_sd_endpoint_option;
pub mod ipv6_endpoint_option;
pub mod ipv6_multicast_option;
pub mod ipv6_sd_endpoint_option;
pub mod load_balancing_option;
pub mod option_header;
pub mod options;
pub mod service_entry;

verus! {

/// A byte range inside a structure.
pub type Field = core::ops::Range<usize>;

} // verus!
