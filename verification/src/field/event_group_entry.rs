//! Layout of an eventgroup entry, sixteen bytes.

use crate::field::Field;
use vstd::prelude::*;

verus! {

/// The entry type byte.
pub const TYPE: Field = 0..1;

/// Index of the first option run.
pub const INDEX_FIRST_OPTION_RUN: Field = 1..2;

/// Index of the second option run.
pub const INDEX_SECOND_OPTION_RUN: Field = 2..3;

/// The two option counts, four bits each.
pub const NUMBER_OF_OPTIONS: Field = 3..4;

/// The service identifier.
pub const SERVICE_ID: Field = 4..6;

/// The instance identifier.
pub const INSTANCE_ID: Field = 6..8;

/// The major version.
pub const MAJOR_VERSION: Field = 8..9;

/// The time to live, twenty-four bits.
pub const TTL: Field = 9..12;

/// Twelve reserved bits and the four-bit counter.
pub const RESERVED_AND_COUNTER: Field = 12..14;

/// The eventgroup identifier.
pub const EVENTGROUP_ID: Field = 14..16;

} // verus!
