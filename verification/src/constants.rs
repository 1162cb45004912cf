use vstd::prelude::*;

verus! {

pub const ONE_BIT: usize = 1;
pub const TWO_BITS: usize = 2;
pub const THREE_BITS: usize = 3;
pub const FOUR_BITS: usize = 4;
pub const FIVE_BITS: usize = 5;
pub const SIX_BITS: usize = 6;
pub const EIGHT_BITS: usize = 8;
pub const NINE_BITS: usize = 9;
pub const TEN_BITS: usize = 10;
pub const ELEVEN_BITS: usize = 11;
pub const TWELVE_BITS: usize = 12;
pub const THIRTEEN_BITS: usize = 13;
pub const FOURTEEN_BITS: usize = 14;
pub const SIXTEEN_BITS: usize = 16;
pub const TWENTY_SIX_BITS: usize = 26;
pub const THIRTY_ONE_BITS: usize = 31;
pub const THIRTY_TWO_BITS: usize = 32;

/// Number of octets in the buffer that PDUs are written into.
pub const MTU_BITS: usize = 12000;

/// The largest length in bits that the 14-bit length field of a Variable Datum can hold.
pub const MAX_VARIABLE_DATUM_LENGTH_BITS: u16 = 16383;

} // verus!
