//! The two length-prefixed arrays that follow the fixed prefix of a packet.

use crate::field::Field;
use vstd::prelude::*;

verus! {

/// Length of the entries array, four bytes.
pub const LENGTH: Field = 4..8;

/// Bytes up to and including the length of the entries array.
pub const MIN_HEADER_LEN: usize = LENGTH.end;

/// The entries array, given its length in bytes.
#[allow(non_snake_case)]
pub fn ENTRIES_ARRAY(length: usize) -> (f: Field)
    requires
        8 + length <= usize::MAX,
    ensures
        f.start == 8,
        f.end == 8 + length,
{
    8..(8 + length)
}

/// The length of the options array, four bytes behind the entries array.
#[allow(non_snake_case)]
pub fn OPTIONS_LENGTH(entries_len: usize) -> (f: Field)
    requires
        12 + entries_len <= usize::MAX,
    ensures
        f.start == 8 + entries_len,
        f.end == 12 + entries_len,
{
    let start = ENTRIES_ARRAY(entries_len).end;
    start..(start + 4)
}

/// The options array, given the lengths of both arrays in bytes.
#[allow(non_snake_case)]
pub fn OPTIONS_ARRAY(entries_len: usize, options_len: usize) -> (f: Field)
    requires
        12 + entries_len + options_len <= usize::MAX,
    ensures
        f.start == 12 + entries_len,
        f.end == 12 + entries_len + options_len,
{
    let start = OPTIONS_LENGTH(entries_len).end;
    start..(start + options_len)
}

} // verus!
