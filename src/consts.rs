//! Marker codes, type tags and fill values of the format.
use vstd::prelude::*;

verus! {

/// Placeholder code of an absent section.
pub const ZERO: u8 = 0x00;
/// Marks a present dimension section.
pub const NC_DIMENSION: u8 = 0x0a;
/// Marks a present variable section.
pub const NC_VARIABLE: u8 = 0x0b;
/// Marks a present attribute section.
pub const NC_ATTRIBUTE: u8 = 0x0c;

pub const NC_BYTE: u32 = 1;
pub const NC_CHAR: u32 = 2;
pub const NC_SHORT: u32 = 3;
pub const NC_INT: u32 = 4;
pub const NC_FLOAT: u32 = 5;
pub const NC_DOUBLE: u32 = 6;

pub const FILL_CHAR: u8 = 0x00;
pub const FILL_BYTE: u8 = 0x81;
pub const FILL_SHORT: u16 = 0x8001;
pub const FILL_INT: u32 = 0x80000001;
/// Bit pattern of the default fill value for floats.
pub const FILL_FLOAT: u32 = 0x7cf00000;
/// Bit pattern of the default fill value for doubles.
pub const FILL_DOUBLE: u64 = 0x479e000000000000;

/// Record count of a file still being streamed (length unknown).
pub const STREAMING: u32 = 0xffffffff;

} // verus!
