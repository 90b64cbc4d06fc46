//! Layout of the header every option starts with.

use crate::field::Field;
use vstd::prelude::*;

verus! {

/// Length of the option after the header.
pub const LENGTH: Field = 0..2;

/// The option type byte.
pub const TYPE: Field = 2..3;

/// The discardable bit and seven reserved bits.
pub const DISCARDABLE_FLAG_AND_RESERVED: Field = 3..4;

} // verus!
