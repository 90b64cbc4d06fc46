//! Payload of an IPv4 multicast option.

use crate::field::Field;
use vstd::prelude::*;

verus! {

/// The multicast address.
pub const IPV4_MULTICAST_ADDRESS: Field = 0..4;

/// A reserved byte.
pub const RESERVED: Field = 4..5;

/// The transport protocol byte.
pub const TRANSPORT_PROTOCOL: Field = 5..6;

/// The port.
pub const PORT: Field = 6..8;

} // verus!
