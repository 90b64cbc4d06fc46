//! An options array seen from its own start.

use crate::field::Field;
use vstd::prelude::*;

verus! {

/// The length field in front of the options.
pub const LENGTH: Field = 0..4;

/// The options behind the length field, given their length in bytes.
#[allow(non_snake_case)]
pub fn OPTIONS_ARRAY(length: usize) -> (f: Field)
    requires
        4 + length <= usize::MAX,
    ensures
        f.start == 4,
        f.end == 4 + length,
{
    4..(4 + length)
}

} // verus!
