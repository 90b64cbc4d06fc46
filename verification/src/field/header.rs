//! Fixed prefix of a packet.

use crate::field::Field;
use vstd::prelude::*;

verus! {

/// The flags byte.
pub const FLAGS: Field = 0..1;

/// Three reserved bytes, sent as zero.
pub const RESERVED: Field = 1..4;

} // verus!
