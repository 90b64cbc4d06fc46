//! Payload of an IPv6 endpoint option.

use crate::field::Field;
use vstd::prelude::*;

verus! {

/// The address.
pub const IPV6_ADDRESS: Field = 0..16;

/// A reserved byte.
pub const RESERVED: Field = 16..17;

/// The transport protocol byte.
pub const TRANSPORT_PROTOCOL: Field = 17..18;

/// The port.
pub const PORT: Field = 18..20;

} // verus!
