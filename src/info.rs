//! Encoding facts of the supported profile: capacities, block layout and the
//! format information words.

use crate::bits::{value_bits, BitStream};
use crate::data::append;
use crate::mask::Mask;
use vstd::prelude::*;

verus! {

/// The number of data codewords of the profile.
pub const DATA_CODEWORDS: usize = 55;

/// The number of data bits of the profile.
pub const DATA_BITS: usize = 440;

/// The number of error correction codewords per block.
pub const EC_CODEWORDS: usize = 15;

/// Returns the total data codewords.
pub fn total_codewords() -> (r: usize)
    ensures
        r == DATA_CODEWORDS,
{
    let d = block_data();
    d.1 * d.2 + d.3 * d.4
}

/// Returns the total data bits.
pub fn total_bits() -> (r: usize)
    ensures
        r == DATA_BITS,
{
    8 * total_codewords()
}

/// Returns the number of data codewords of each block; there are as many
/// blocks as elements.
pub fn group_block_count() -> (r: Vec<usize>)
    ensures
        r@ == seq![DATA_CODEWORDS],
{
    let data = block_data();
    let mut v: Vec<usize> = Vec::new();
    let mut i: usize = 0;
    while i < data.1
        invariant
            data == (15usize, 1usize, 55usize, 0usize, 0usize),
            i <= data.1,
            v@ == Seq::new(i as nat, |k: int| data.2),
        decreases data.1 - i,
    {
        v.push(data.2);
        i = i + 1;
        assert(v@ =~= Seq::new(i as nat, |k: int| data.2));
    }
    let mut j: usize = 0;
    while j < data.3
        invariant
            data == (15usize, 1usize, 55usize, 0usize, 0usize),
            j <= data.3,
            v@ == Seq::new(data.1 as nat, |k: int| data.2),
        decreases data.3 - j,
    {
        v.push(data.4);
        j = j + 1;
    }
    assert(v@ =~= seq![DATA_CODEWORDS]);
    v
}

/// Returns the error correction codewords per block.
pub fn block_ec_count() -> (r: usize)
    ensures
        r == EC_CODEWORDS,
{
    block_data().0
}

/// The 15-bit format word for level L and a mask.
pub open spec fn format_word(m: int) -> u32 {
    if m == 0 {
        0b111011111000100
    } else if m == 1 {
        0b111001011110011
    } else if m == 2 {
        0b111110110101010
    } else if m == 3 {
        0b111100010011101
    } else if m == 4 {
        0b110011000101111
    } else if m == 5 {
        0b110001100011000
    } else if m == 6 {
        0b110110001000001
    } else {
        0b110100101110110
    }
}

/// Returns the format bits to be embedded, most significant first.
pub fn format_info(mask: Mask) -> (r: BitStream)
    requires
        mask.0 < 8,
    ensures
        r@ == value_bits(format_word(mask.0 as int), 15),
{
    let x = format_table(mask.0);
    let mut bv = BitStream::new();
    append(&mut bv, x, 15);
    assert(bv@ =~= value_bits(format_word(mask.0 as int), 15));
    bv
}

fn format_table(m: usize) -> (r: u32)
    requires
        m < 8,
    ensures
        r == format_word(m as int),
{
    match m {
        0 => 0b111011111000100,
        1 => 0b111001011110011,
        2 => 0b111110110101010,
        3 => 0b111100010011101,
        4 => 0b110011000101111,
        5 => 0b110001100011000,
        6 => 0b110110001000001,
        _ => 0b110100101110110,
    }
}

/// Error correction codewords per block, then the number of blocks and their
/// data codewords in each of the two groups.
fn block_data() -> (r: (usize, usize, usize, usize, usize))
    ensures
        r == (15usize, 1usize, 55usize, 0usize, 0usize),
{
    (15, 1, 55, 0, 0)
}

} // verus!
