//! The finished QR code.

use crate::builder::{chosen_mask, final_cell, sized, Error, QrBuilder};
use crate::data::MAX_PAYLOAD;
use crate::ec::ECLevel;
use crate::mask::Mask;
use crate::matrix::{is_dark_module, Matrix};
use crate::mode::Mode;
use crate::version::{Version, SUPPORTED_VERSION};
use vstd::prelude::*;
use vstd::string::StringSliceAdditionalSpecFns;

verus! {

/// The QR code: the grid of modules and how it was encoded.
#[derive(Debug, PartialEq, Eq)]
pub struct Qr {
    /// Version of the QR code.
    pub version: Version,
    /// Error correction level.
    pub ecl: ECLevel,
    /// Encoding mode.
    pub mode: Mode,
    /// The modules.
    pub matrix: Matrix,
    /// The applied mask, 0 to 7.
    pub mask: Mask,
}

/// `q` is the QR code of `payload`, with the mask `asked` if one was asked
/// for and the best mask otherwise.
pub open spec fn encodes(q: Qr, payload: Seq<u8>, asked: Option<Mask>) -> bool {
    &&& q.version.0 == SUPPORTED_VERSION
    &&& q.ecl == ECLevel::L
    &&& q.mode == Mode::Byte
    &&& sized(q.matrix)
    &&& q.mask.0 == chosen_mask(payload, asked)
    &&& forall|x: int, y: int|
        q.matrix.inside(x, y) ==> #[trigger] q.matrix.cell(x, y) == final_cell(
            payload,
            q.mask.0 as int,
            x,
            y,
        )
}

/// Encoding is deterministic: two codes of the same payload, with the same
/// mask asked for (or none), have the same mask and the same modules.
pub proof fn lemma_encoding_deterministic(
    q1: Qr,
    q2: Qr,
    payload: Seq<u8>,
    asked: Option<Mask>,
)
    requires
        encodes(q1, payload, asked),
        encodes(q2, payload, asked),
    ensures
        q1.mask == q2.mask,
        q1.matrix.size == q2.matrix.size,
        forall|x: int, y: int|
            q1.matrix.inside(x, y) ==> #[trigger] q1.matrix.cell(x, y) == q2.matrix.cell(x, y),
{
}

impl Qr {
    /// Create a QR code from a string.
    pub fn new(s: &str) -> (r: Result<Qr, Error>)
        ensures
            r is Ok <==> s.spec_bytes().len() <= MAX_PAYLOAD,
            r is Err ==> r == Err::<Qr, Error>(Error::MessageTooLong),
            r matches Ok(q) ==> encodes(q, s.spec_bytes(), None) && q.matrix.spec_complete()
                && q.matrix.size == 29,
    {
        QrBuilder::new().ecl(ECLevel::L).into(s)
    }

    /// Returns the number of modules on each side.
    pub fn size(&self) -> (r: usize)
        requires
            1 <= self.version.0 <= 40,
        ensures
            r == 4 * (self.version.0 - 1) + 21,
    {
        self.version.size()
    }

    /// Is the module at `(x, y)` dark?
    pub fn is_dark(&self, x: usize, y: usize) -> (r: bool)
        requires
            self.matrix.wf(),
            self.matrix.inside(x as int, y as int),
        ensures
            r == is_dark_module(self.matrix.cell(x as int, y as int)),
    {
        self.matrix.is_dark(x, y)
    }
}

} // verus!
