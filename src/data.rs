//! The data bit stream: mode indicator, character count, payload, terminator
//! and padding, filled to the exact capacity of the profile.

use crate::bits::{
    bytes_to_bits, lemma_bytes_to_bits_len, lemma_value_bits_zero, lemma_bytes_to_bits_push, value_bits, zeros,
    BitStream, MAX_BITS,
};
use crate::builder::Error;
use crate::ec::ECLevel;
use crate::info;
use crate::info::DATA_BITS;
use crate::mode::{mode_bits, Mode};
use crate::version::{Version, SUPPORTED_VERSION};
use vstd::prelude::*;
use vstd::string::StringSliceAdditionalSpecFns;

verus! {

/// The largest payload, in bytes.
pub const MAX_PAYLOAD: usize = 53;

/// The pad codewords: 0xEC and 0x11 in turn.
pub open spec fn pad_bytes(n: nat) -> Seq<u8> {
    Seq::new(n, |i: int| if i % 2 == 0 { 0xECu8 } else { 0x11u8 })
}

/// Mode indicator, character count and payload.
pub open spec fn header_bits(payload: Seq<u8>) -> Seq<bool> {
    mode_bits(Mode::Byte) + value_bits(payload.len() as u32, 8) + bytes_to_bits(payload)
}

/// The complete data bit stream of a payload: the header, up to four
/// terminator bits that fit, zero bits up to a byte boundary, and pad
/// codewords up to the capacity.
pub open spec fn data_bits(payload: Seq<u8>) -> Seq<bool> {
    let cap = DATA_BITS as int;
    let h1 = header_bits(payload);
    let t = if cap - h1.len() < 4 {
        cap - h1.len()
    } else {
        4
    };
    let h2 = h1 + zeros(t as nat);
    let h3 = h2 + zeros(((cap - h2.len()) % 8) as nat);
    h3 + bytes_to_bits(pad_bytes(((cap - h3.len()) / 8) as nat))
}

/// Encode a string to its data bits, choosing the mode from the content.
/// Error correction is not included.
pub fn encode(s: &str, version: Version, ecl: ECLevel) -> (r: Result<(Mode, BitStream), Error>)
    requires
        version.0 == SUPPORTED_VERSION,
    ensures
        r is Ok <==> s.spec_bytes().len() <= MAX_PAYLOAD,
        r is Err ==> r == Err::<(Mode, BitStream), Error>(Error::MessageTooLong),
        r matches Ok(p) ==> p.0 == Mode::Byte && p.1@ == data_bits(s.spec_bytes()),
{
    let mode = Mode::from_str(s);
    match encode_with_mode(s, mode, version, ecl) {
        Ok(encoded) => Ok((mode, encoded)),
        Err(e) => Err(e),
    }
}

/// Encode a string to its data bits in a given mode. Error correction is not
/// included.
pub fn encode_with_mode(s: &str, mode: Mode, version: Version, ecl: ECLevel) -> (r: Result<
    BitStream,
    Error,
>)
    requires
        version.0 == SUPPORTED_VERSION,
    ensures
        r is Ok <==> s.spec_bytes().len() <= MAX_PAYLOAD,
        r is Err ==> r == Err::<BitStream, Error>(Error::MessageTooLong),
        r matches Ok(b) ==> b@ == data_bits(s.spec_bytes()) && b@.len() == DATA_BITS,
{
    let total_capacity = info::total_bits();
    let header_len = 4 + version.char_count_len(mode);
    let n = s.as_bytes().len();
    // The payload must fit with the header, before any padding.
    if n > (total_capacity - header_len) / 8 {
        return Err(Error::MessageTooLong);
    }
    assert((total_capacity - header_len) / 8 == MAX_PAYLOAD);
    let ghost payload = s.spec_bytes();
    proof {
        lemma_bytes_to_bits_len(payload);
    }
    // Encoding is mode, char count, data.
    let mut bv = mode.to_bitvec();
    let mut count = bitvec_char_count(n, mode, version);
    bv.extend_from(&count);
    let data = bitvec_data(s, mode);
    bv.extend_from(&data);
    proof {
        assert(bv@ == header_bits(payload));
    }
    // Add up to 4 zero bits if we're below capacity.
    let room = total_capacity - bv.len();
    let zero_bits = if room < 4 {
        room
    } else {
        4
    };
    append(&mut bv, 0, zero_bits);
    proof {
        lemma_value_bits_zero(zero_bits as nat);
    }
    // Add zero bits up to a whole byte.
    let zero_bits = (total_capacity - bv.len()) % 8;
    append(&mut bv, 0, zero_bits);
    proof {
        lemma_value_bits_zero(zero_bits as nat);
    }
    let ghost h3 = bv@;
    // Add pad codewords up to the capacity.
    let mut k: usize = 0;
    while bv.len() < total_capacity
        invariant
            total_capacity == DATA_BITS,
            h3.len() <= DATA_BITS,
            (DATA_BITS - h3.len()) % 8 == 0,
            bv@ == h3 + bytes_to_bits(pad_bytes(k as nat)),
            bv@.len() == h3.len() + 8 * k,
            bv@.len() <= DATA_BITS,
        decreases DATA_BITS - bv@.len(),
    {
        let pad: u32 = if k % 2 == 0 {
            0xEC
        } else {
            0x11
        };
        append(&mut bv, pad, 8);
        proof {
            assert(pad_bytes((k + 1) as nat) =~= pad_bytes(k as nat).push(pad as u8));
            lemma_bytes_to_bits_push(pad_bytes(k as nat), pad as u8);
        }
        k = k + 1;
    }
    proof {
        lemma_bytes_to_bits_len(pad_bytes(k as nat));
        assert(k == (DATA_BITS - h3.len()) / 8);
    }
    Ok(bv)
}

/// Append the `len` low bits of `v`, most significant first.
pub fn append(bv: &mut BitStream, v: u32, len: usize)
    requires
        len <= 32,
        old(bv)@.len() + len < MAX_BITS,
    ensures
        final(bv)@ == old(bv)@ + value_bits(v, len as nat),
{
    let ghost start = bv@;
    let mut k: usize = 0;
    while k < len
        invariant
            len <= 32,
            k <= len,
            start.len() + len < MAX_BITS,
            bv@ == start + value_bits(v, len as nat).subrange(0, k as int),
        decreases len - k,
    {
        let shift = (len - 1 - k) as u32;
        bv.push((v >> shift) & 1 == 1);
        k = k + 1;
        assert(bv@ =~= start + value_bits(v, len as nat).subrange(0, k as int));
    }
    assert(value_bits(v, len as nat).subrange(0, k as int) =~= value_bits(v, len as nat));
}

/// The character count field.
fn bitvec_char_count(len: usize, mode: Mode, v: Version) -> (r: BitStream)
    requires
        v.0 == SUPPORTED_VERSION,
    ensures
        r@ == value_bits(len as u32, 8),
{
    let mut bv = BitStream::new();
    append(&mut bv, len as u32, v.char_count_len(mode));
    assert(bv@ =~= value_bits(len as u32, 8));
    bv
}

/// The payload bits of a string.
fn bitvec_data(s: &str, mode: Mode) -> (r: BitStream)
    requires
        s.spec_bytes().len() <= MAX_PAYLOAD,
    ensures
        r@ == bytes_to_bits(s.spec_bytes()),
{
    let bytes = string_to_bytes(s, mode);
    match mode {
        Mode::Byte => encode_byte_data(&bytes),
    }
}

/// Byte mode: the bytes as they are, eight bits each.
fn encode_byte_data(v: &Vec<u8>) -> (r: BitStream)
    requires
        v@.len() <= MAX_PAYLOAD,
    ensures
        r@ == bytes_to_bits(v@),
{
    BitStream::from_bytes(v.clone())
}

/// The bytes of a string in a mode; byte mode takes its UTF-8 bytes.
fn string_to_bytes(s: &str, mode: Mode) -> (r: Vec<u8>)
    ensures
        r@ == s.spec_bytes(),
{
    match mode {
        Mode::Byte => {
            let b = s.as_bytes();
            let mut r: Vec<u8> = Vec::new();
            let mut i: usize = 0;
            while i < b.len()
                invariant
                    b@ == s.spec_bytes(),
                    i <= b@.len(),
                    r@ == b@.subrange(0, i as int),
                decreases b@.len() - i,
            {
                r.push(b[i]);
                i = i + 1;
                assert(r@ =~= b@.subrange(0, i as int));
            }
            assert(r@ =~= b@);
            r
        },
    }
}

} // verus!
