//! Payload of a configuration option.

use crate::field::Field;
use vstd::prelude::*;

verus! {

/// The configuration string, given its length in bytes.
#[allow(non_snake_case)]
pub fn CONFIGURATION_STRING(length: usize) -> (f: Field)
    requires
        3 + length <= usize::MAX,
    ensures
        f.start == 3,
        f.end == 3 + length,
{
    3..(3 + length)
}

} // verus!
