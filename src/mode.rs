//! Encoding modes for a QR code.

use crate::bits::BitStream;
use vstd::prelude::*;

verus! {

/// Encoding modes. This profile supports the byte mode alone.
#[derive(Debug, PartialEq, Eq, Clone, Copy, Structural)]
pub enum Mode {
    /// Byte mode: ISO-8859-1 or UTF-8 bytes, eight bits each.
    Byte,
}

/// The four-bit mode indicator.
pub open spec fn mode_bits(m: Mode) -> Seq<bool> {
    match m {
        Mode::Byte => seq![false, true, false, false],
    }
}

impl Mode {
    /// The mode for a string, decided from its content.
    pub fn from_str(s: &str) -> (r: Mode)
        ensures
            r == Mode::Byte,
    {
        // Every string can be written in byte mode.
        let byte = Mode::in_byte(s);
        assert(byte);
        Mode::Byte
    }

    /// Is this a valid mode for a string?
    pub fn matches(&self, s: &str) -> (r: bool)
        ensures
            r,
    {
        match self {
            Mode::Byte => Mode::in_byte(s),
        }
    }

    /// The mode indicator as bits.
    pub fn to_bitvec(&self) -> (r: BitStream)
        ensures
            r@ == mode_bits(*self),
    {
        match self {
            Mode::Byte => {
                let mut r = BitStream::new();
                r.push(false);
                r.push(true);
                r.push(false);
                r.push(false);
                r
            },
        }
    }

    /// Returns true if the contents can be written in byte mode, which is
    /// always the case.
    pub fn in_byte(s: &str) -> (r: bool)
        ensures
            r,
    {
        true
    }
}

} // verus!
