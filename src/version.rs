//! The version of a QR code, which fixes its size.

use crate::mode::Mode;
use vstd::prelude::*;

verus! {

/// QR code version. Only version 3 is supported by this library.
#[derive(Debug, Clone, Copy, PartialEq, Eq, Structural)]
pub struct Version(pub usize);

/// The one supported version number.
pub const SUPPORTED_VERSION: usize = 3;

impl Version {
    /// Create a version; only version 3 is supported.
    pub fn new(v: usize) -> (r: Version)
        requires
            v == SUPPORTED_VERSION,
        ensures
            r.0 == v,
    {
        Version(v)
    }

    /// The data capacity in bytes.
    pub fn capacity(&self) -> (r: usize)
        ensures
            r == 53,
    {
        53
    }

    /// The number of modules on each side of the code.
    pub fn size(&self) -> (r: usize)
        requires
            1 <= self.0 <= 40,
        ensures
            r == 4 * (self.0 - 1) + 21,
    {
        (self.index() * 4) + 21
    }

    /// The width in bits of the character count field.
    pub fn char_count_len(&self, mode: Mode) -> (r: usize)
        requires
            self.0 == SUPPORTED_VERSION,
        ensures
            r == 8,
    {
        match mode {
            Mode::Byte => 8,
        }
    }

    /// Returns true if this version carries extra version areas.
    pub fn extra_version_areas(&self) -> (r: bool)
        ensures
            r == (self.0 >= 7),
    {
        self.0 >= 7
    }

    /// The position (x, y) of the fixed dark module.
    pub fn dark_module_pos(&self) -> (r: (usize, usize))
        requires
            self.0 <= 40,
        ensures
            r == (8usize, (4 * self.0 + 9) as usize),
    {
        (8, 4 * self.0 + 9)
    }

    /// The version number minus one, suitable for indexing.
    pub fn index(&self) -> (r: usize)
        requires
            self.0 >= 1,
        ensures
            r == self.0 - 1,
    {
        self.0 - 1
    }
}

} // verus!
