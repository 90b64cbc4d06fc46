//! Payload of a load balancing option.

use crate::field::Field;
use vstd::prelude::*;

verus! {

/// The priority.
pub const PRIORITY: Field = 0..2;

/// The weight.
pub const WEIGHT: Field = 2..4;

} // verus!
