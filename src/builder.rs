//! The QR code builder: function patterns, data placement, masking and format
//! information, on a grid of the supported version.

use crate::bits::{bytes_to_bits, value_bits, zeros, BitStream};
use crate::data::data_bits;
use crate::ec::ec_codewords;
use crate::info::format_word;
use crate::data;
use crate::data::MAX_PAYLOAD;
use crate::ec;
use crate::info;
use crate::mask;
use crate::mask::{best_mask, cells_of, lemma_best_mask, masked_module};
use crate::qr::{encodes, Qr};
use crate::rendercommons;
use crate::rendercommons::dbg_rows;
use vstd::string::StringSliceAdditionalSpecFns;
use crate::matrix::{in_rect, is_dark_module, is_fun_module, on_outline, Matrix, Module};
use crate::ec::ECLevel;
use crate::mask::Mask;
use crate::mode::Mode;
use crate::version::{Version, SUPPORTED_VERSION};
use vstd::prelude::*;

verus! {

/// Errors of the builder.
#[derive(Debug, Copy, Clone, PartialEq, Eq, Structural)]
pub enum Error {
    /// The mode cannot encode the message.
    UnsupportedMode,
    /// The message is longer than the capacity.
    MessageTooLong,
    /// The builder was incomplete when a QR code was asked of it.
    IncompleteBuilder,
}

/// The number of modules on each side of a version 3 code.
pub const SIZE: usize = 29;

/// The finder pattern relative to its top left corner: dark, but for the
/// ring one module in.
pub open spec fn finder_dark(dx: int, dy: int) -> bool {
    !(1 <= dx <= 5 && 1 <= dy <= 5 && (dx == 1 || dx == 5 || dy == 1 || dy == 5))
}

/// The alignment pattern relative to its top left corner: dark, but for the
/// ring one module in.
pub open spec fn alignment_dark(dx: int, dy: int) -> bool {
    !(1 <= dx <= 3 && 1 <= dy <= 3 && (dx == 1 || dx == 3 || dy == 1 || dy == 3))
}

/// The three finder patterns with their light separators.
pub open spec fn finder_layer(x: int, y: int) -> Module {
    if x <= 7 && y <= 7 {
        Module::Function(x <= 6 && y <= 6 && finder_dark(x, y))
    } else if x >= 21 && y <= 7 {
        Module::Function(x >= 22 && y <= 6 && finder_dark(x - 22, y))
    } else if x <= 7 && y >= 21 {
        Module::Function(x <= 6 && y >= 22 && finder_dark(x, y - 22))
    } else {
        Module::Unknown
    }
}

/// Adds the one alignment pattern that does not overlap a finder.
pub open spec fn alignment_layer(x: int, y: int) -> Module {
    if 24 <= x <= 28 && 24 <= y <= 28 {
        Module::Function(alignment_dark(x - 24, y - 24))
    } else {
        finder_layer(x, y)
    }
}

/// The timing patterns on row 6 and column 6 from the first timing row index
/// `6` up to (but not including) `hi`, over the alignment layer.
pub open spec fn timing_upto(x: int, y: int, hi: int) -> Module {
    if y == 6 && 6 <= x < hi {
        Module::Function(x % 2 == 0)
    } else if x == 6 && 6 <= y < hi {
        Module::Function(y % 2 == 0)
    } else {
        alignment_layer(x, y)
    }
}

/// Adds both timing patterns.
pub open spec fn timing_layer(x: int, y: int) -> Module {
    timing_upto(x, y, 23)
}

/// Adds the dark module.
pub open spec fn dark_layer(x: int, y: int) -> Module {
    if x == 8 && y == 21 {
        Module::Function(true)
    } else {
        timing_layer(x, y)
    }
}

/// The cells set aside for format information.
pub open spec fn reserved_area(x: int, y: int) -> bool {
    ||| in_rect(x, y, 0, 8, 5, 8)
    ||| in_rect(x, y, 7, 8, 8, 8)
    ||| in_rect(x, y, 8, 0, 8, 5)
    ||| in_rect(x, y, 8, 7, 8, 7)
    ||| in_rect(x, y, 21, 8, 28, 8)
    ||| in_rect(x, y, 8, 22, 8, 28)
}

/// All function patterns and reserved areas of a version 3 code.
#[verifier::opaque]
pub open spec fn fun_layout(x: int, y: int) -> Module {
    if reserved_area(x, y) {
        Module::Reserved
    } else {
        dark_layer(x, y)
    }
}

/// A grid of the supported size.
pub open spec fn sized(m: Matrix) -> bool {
    m.wf() && m.size == SIZE
}

/// Builder for a QR code.
pub struct QrBuilder {
    /// Version to use.
    pub version: Version,
    /// Mask to use; the best one is chosen when it is not set.
    pub mask: Option<Mask>,
    /// Error correction level.
    pub ecl: ECLevel,
    /// Encoding mode.
    pub mode: Mode,
    /// The grid; empty until the build starts.
    pub matrix: Matrix,
}

/// A builder as `QrBuilder::new` makes it, possibly with a mask and a level
/// set: the supported version and an empty grid.
pub open spec fn fresh(b: QrBuilder) -> bool {
    &&& b.version.0 == SUPPORTED_VERSION
    &&& b.matrix.wf()
    &&& b.matrix.size == 0
    &&& b.mask matches Some(m) ==> m.0 < 8
}

impl QrBuilder {
    /// Create a new builder.
    pub fn new() -> (r: QrBuilder)
        ensures
            fresh(r),
            r.mask is None,
            r.ecl == ECLevel::L,
            r.mode == Mode::Byte,
    {
        QrBuilder {
            version: Version::new(3),
            mask: None,
            ecl: ECLevel::L,
            mode: Mode::Byte,
            matrix: Matrix::new(0),
        }
    }

    /// Set the mask to use. If not set, the best mask is chosen.
    pub fn mask(self, mask: Mask) -> (r: Self)
        requires
            mask.0 < 8,
        ensures
            r.mask == Some(mask),
            r.version == self.version,
            r.ecl == self.ecl,
            r.mode == self.mode,
            r.matrix == self.matrix,
    {
        let mut b = self;
        b.mask = Some(mask);
        b
    }

    /// Set the error correction level.
    pub fn ecl(self, ecl: ECLevel) -> (r: Self)
        ensures
            r.ecl == ecl,
            r.mask == self.mask,
            r.version == self.version,
            r.mode == self.mode,
            r.matrix == self.matrix,
    {
        let mut b = self;
        b.ecl = ecl;
        b
    }

    /// Build all elements and make the QR code.
    pub fn into(self, s: &str) -> (r: Result<Qr, Error>)
        requires
            fresh(self),
        ensures
            r is Ok <==> s.spec_bytes().len() <= MAX_PAYLOAD,
            r is Err ==> r == Err::<Qr, Error>(Error::MessageTooLong),
            r matches Ok(q) ==> encodes(q, s.spec_bytes(), self.mask) && q.matrix.spec_complete(),
    {
        let mut b = self;
        match b.add_all(s) {
            Ok(()) => {},
            Err(e) => {
                return Err(e);
            },
        }
        proof {
            let m = chosen_mask(s.spec_bytes(), self.mask);
            lemma_best_mask(placed_fn(codeword_stream(s.spec_bytes())), SIZE as nat, 8);
            lemma_final_complete(s.spec_bytes(), m);
            assert(b.matrix.spec_complete());
        }
        b.into_qr()
    }

    /// Convert the builder into a QR code.
    pub fn into_qr(self) -> (r: Result<Qr, Error>)
        requires
            self.matrix.wf(),
        ensures
            r is Ok <==> self.mask is Some && self.matrix.size != 0 && self.matrix.spec_complete(),
            r is Err ==> r == Err::<Qr, Error>(Error::IncompleteBuilder),
            r matches Ok(q) ==> q.matrix == self.matrix && Some(q.mask) == self.mask && q.version
                == self.version && q.ecl == self.ecl && q.mode == self.mode,
    {
        if !self.complete() {
            return Err(Error::IncompleteBuilder);
        }
        match self.mask {
            Some(mask) => Ok(
                Qr {
                    matrix: self.matrix,
                    version: self.version,
                    ecl: self.ecl,
                    mode: self.mode,
                    mask: mask,
                },
            ),
            None => Err(Error::IncompleteBuilder),
        }
    }

    /// Add all elements of a QR code.
    pub fn add_all(&mut self, s: &str) -> (r: Result<(), Error>)
        requires
            fresh(*old(self)),
        ensures
            r is Ok <==> s.spec_bytes().len() <= MAX_PAYLOAD,
            r is Err ==> r == Err::<(), Error>(Error::MessageTooLong),
            r is Ok ==> {
                let m = chosen_mask(s.spec_bytes(), old(self).mask);
                &&& sized(final(self).matrix)
                &&& final(self).version == old(self).version
                &&& final(self).ecl == old(self).ecl
                &&& final(self).mode == old(self).mode
                &&& final(self).mask == Some(Mask(m as usize))
                &&& forall|a: int, b: int|
                    final(self).matrix.inside(a, b) ==> #[trigger] final(self).matrix.cell(a, b)
                        == final_cell(s.spec_bytes(), m, a, b)
            },
    {
        match self.ensure_settings() {
            Ok(()) => {},
            Err(e) => {
                return Err(e);
            },
        }
        self.add_fun_patterns();
        match self.add_data(s) {
            Ok(()) => {},
            Err(e) => {
                return Err(e);
            },
        }
        let ghost placed = self.matrix;
        proof {
            assert(cells_of(placed) =~= placed_fn(codeword_stream(s.spec_bytes())));
            lemma_best_mask(cells_of(placed), SIZE as nat, 8);
        }
        self.mask_data();
        self.add_info();
        Ok(())
    }

    /// Add the data of a string: its bit stream with error correction,
    /// placed in the grid.
    pub fn add_data(&mut self, s: &str) -> (r: Result<(), Error>)
        requires
            sized(old(self).matrix),
            old(self).version.0 == SUPPORTED_VERSION,
            forall|a: int, b: int|
                old(self).matrix.inside(a, b) ==> #[trigger] old(self).matrix.cell(a, b)
                    == fun_layout(a, b),
        ensures
            r is Ok <==> s.spec_bytes().len() <= MAX_PAYLOAD,
            r is Err ==> r == Err::<(), Error>(Error::MessageTooLong) && *final(self) == *old(
                self,
            ),
            r is Ok ==> {
                &&& sized(final(self).matrix)
                &&& final(self).version == old(self).version
                &&& final(self).ecl == old(self).ecl
                &&& final(self).mode == old(self).mode
                &&& final(self).mask == old(self).mask
                &&& forall|a: int, b: int|
                    final(self).matrix.inside(a, b) ==> #[trigger] final(self).matrix.cell(a, b)
                        == placed_cell(codeword_stream(s.spec_bytes()), a, b)
            },
    {
        match self.ensure_settings() {
            Ok(()) => {},
            Err(e) => {
                return Err(e);
            },
        }
        let version = self.version;
        let mode = self.mode;

        let v = match data::encode_with_mode(s, mode, version, self.ecl) {
            Ok(v) => v,
            Err(e) => {
                return Err(e);
            },
        };
        let v = ec::add(v, self.version);
        proof {
            let d = data_codewords(s.spec_bytes());
            assert(bytes_to_bits(d) == data_bits(s.spec_bytes()));
            assert(v@ == codeword_stream(s.spec_bytes()));
        }
        self.add_raw_data(&v);
        Ok(())
    }

    /// Mask the data, with the mask that was set or else the best one.
    pub fn mask_data(&mut self)
        requires
            sized(old(self).matrix),
            old(self).mask matches Some(m) ==> m.0 < 8,
        ensures
            ({
                let m = match old(self).mask {
                    Some(m) => m.0 as int,
                    None => best_mask(cells_of(old(self).matrix), SIZE as nat, 8),
                };
                &&& sized(final(self).matrix)
                &&& final(self).version == old(self).version
                &&& final(self).ecl == old(self).ecl
                &&& final(self).mode == old(self).mode
                &&& final(self).mask == Some(Mask(m as usize))
                &&& forall|a: int, b: int|
                    final(self).matrix.inside(a, b) ==> #[trigger] final(self).matrix.cell(a, b)
                        == masked_module(old(self).matrix.cell(a, b), m, a, b)
            }),
    {
        if let Some(mask) = self.mask {
            self.mask_with(mask);
        } else {
            self.mask_best();
        }
    }

    /// Mask with the mask of lowest penalty.
    pub fn mask_best(&mut self)
        requires
            sized(old(self).matrix),
        ensures
            ({
                let m = best_mask(cells_of(old(self).matrix), SIZE as nat, 8);
                &&& sized(final(self).matrix)
                &&& final(self).version == old(self).version
                &&& final(self).ecl == old(self).ecl
                &&& final(self).mode == old(self).mode
                &&& final(self).mask == Some(Mask(m as usize))
                &&& forall|a: int, b: int|
                    final(self).matrix.inside(a, b) ==> #[trigger] final(self).matrix.cell(a, b)
                        == masked_module(old(self).matrix.cell(a, b), m, a, b)
            }),
    {
        let mask = mask::mask(&self.matrix);
        self.mask = Some(mask);
        mask::apply_mask(mask, &mut self.matrix);
    }

    /// Mask with a given mask.
    pub fn mask_with(&mut self, mask: Mask)
        requires
            sized(old(self).matrix),
            mask.0 < 8,
        ensures
            sized(final(self).matrix),
            final(self).version == old(self).version,
            final(self).ecl == old(self).ecl,
            final(self).mode == old(self).mode,
            final(self).mask == Some(mask),
            forall|a: int, b: int|
                final(self).matrix.inside(a, b) ==> #[trigger] final(self).matrix.cell(a, b)
                    == masked_module(old(self).matrix.cell(a, b), mask.0 as int, a, b),
    {
        self.mask = Some(mask);
        mask::apply_mask(mask, &mut self.matrix);
    }

    /// Add the information areas.
    pub fn add_info(&mut self)
        requires
            sized(old(self).matrix),
            old(self).mask matches Some(m) && m.0 < 8,
        ensures
            sized(final(self).matrix),
            final(self).version == old(self).version,
            final(self).ecl == old(self).ecl,
            final(self).mode == old(self).mode,
            final(self).mask == old(self).mask,
            forall|a: int, b: int|
                final(self).matrix.inside(a, b) ==> #[trigger] final(self).matrix.cell(a, b)
                    == with_format(
                    old(self).matrix.cell(a, b),
                    value_bits(format_word(old(self).mask.unwrap().0 as int), 15),
                    a,
                    b,
                ),
    {
        self.add_format_info();
    }

    /// Add the format information of the level and mask.
    pub fn add_format_info(&mut self)
        requires
            sized(old(self).matrix),
            old(self).mask matches Some(m) && m.0 < 8,
        ensures
            sized(final(self).matrix),
            final(self).version == old(self).version,
            final(self).ecl == old(self).ecl,
            final(self).mode == old(self).mode,
            final(self).mask == old(self).mask,
            forall|a: int, b: int|
                final(self).matrix.inside(a, b) ==> #[trigger] final(self).matrix.cell(a, b)
                    == with_format(
                    old(self).matrix.cell(a, b),
                    value_bits(format_word(old(self).mask.unwrap().0 as int), 15),
                    a,
                    b,
                ),
    {
        let mask = match self.mask {
            Some(m) => m,
            None => Mask(0),
        };
        let format = info::format_info(mask);
        self.add_format(&format);
    }

    /// Returns true if the build is complete.
    fn complete(&self) -> (r: bool)
        requires
            self.matrix.wf(),
        ensures
            r == (self.mask is Some && self.matrix.size != 0 && self.matrix.spec_complete()),
    {
        if self.mask.is_none() {
            return false;
        }
        if self.matrix.size == 0 {
            return false;
        }
        self.matrix.complete()
    }

    // Make sure the grid exists.
    fn ensure_settings(&mut self) -> (r: Result<(), Error>)
        requires
            old(self).version.0 == SUPPORTED_VERSION,
            old(self).matrix.wf(),
            old(self).matrix.size == 0 || old(self).matrix.size == SIZE,
        ensures
            r is Ok,
            final(self).version == old(self).version,
            final(self).ecl == old(self).ecl,
            final(self).mode == old(self).mode,
            final(self).mask == old(self).mask,
            old(self).matrix.size != 0 ==> final(self).matrix == old(self).matrix,
            old(self).matrix.size == 0 ==> sized(final(self).matrix) && forall|a: int, b: int|
                final(self).matrix.inside(a, b) ==> #[trigger] final(self).matrix.cell(a, b)
                    == Module::Unknown,
    {
        if self.matrix.size == 0 {
            self.matrix = Matrix::new(self.version.size());
        }
        Ok(())
    }

    /// The grid as a debug string, a character for each kind of module.
    pub fn to_dbg_string(&self) -> (r: String)
        requires
            self.matrix.wf(),
        ensures
            r@ == seq!['\n'] + dbg_rows(self.matrix, self.matrix.size as int),
    {
        rendercommons::to_dbg_string(&self.matrix)
    }

    // x and y give the top left corner
    fn add_finder(&mut self, x: usize, y: usize)
        requires
            sized(old(self).matrix),
            x + 7 <= SIZE,
            y + 7 <= SIZE,
        ensures
            sized(final(self).matrix),
            final(self).version == old(self).version,
            final(self).mask == old(self).mask,
            forall|a: int, b: int|
                final(self).matrix.inside(a, b) ==> #[trigger] final(self).matrix.cell(a, b) == if in_rect(
                    a,
                    b,
                    x as int,
                    y as int,
                    x + 6,
                    y + 6,
                ) {
                    Module::Function(finder_dark(a - x, b - y))
                } else {
                    old(self).matrix.cell(a, b)
                },
    {
        self.matrix.set_square(x, y, 7, Module::Function(true));
        self.matrix.set_square_outline(x + 1, y + 1, 5, Module::Function(false));
    }

    fn add_separator(&mut self, x0: usize, y0: usize, x1: usize, y1: usize)
        requires
            sized(old(self).matrix),
            x1 < SIZE,
            y1 < SIZE,
        ensures
            sized(final(self).matrix),
            final(self).version == old(self).version,
            final(self).mask == old(self).mask,
            forall|a: int, b: int|
                final(self).matrix.inside(a, b) ==> #[trigger] final(self).matrix.cell(a, b) == if in_rect(
                    a,
                    b,
                    x0 as int,
                    y0 as int,
                    x1 as int,
                    y1 as int,
                ) {
                    Module::Function(false)
                } else {
                    old(self).matrix.cell(a, b)
                },
    {
        self.matrix.set_rect(x0, y0, x1, y1, Module::Function(false));
    }

    fn add_finders(&mut self)
        requires
            sized(old(self).matrix),
            forall|a: int, b: int|
                old(self).matrix.inside(a, b) ==> #[trigger] old(self).matrix.cell(a, b)
                    == Module::Unknown,
        ensures
            sized(final(self).matrix),
            final(self).version == old(self).version,
            final(self).mask == old(self).mask,
            forall|a: int, b: int|
                final(self).matrix.inside(a, b) ==> #[trigger] final(self).matrix.cell(a, b)
                    == finder_layer(a, b),
    {
        let size = self.matrix.size;

        self.add_finder(0, 0);
        self.add_separator(0, 7, 7, 7);
        self.add_separator(7, 0, 7, 7);

        self.add_finder(size - 7, 0);
        self.add_separator(size - 8, 7, size - 1, 7);
        self.add_separator(size - 8, 0, size - 8, 7);

        self.add_finder(0, size - 7);
        self.add_separator(0, size - 8, 7, size - 8);
        self.add_separator(7, size - 8, 7, size - 1);
    }

    fn add_alignments(&mut self)
        requires
            sized(old(self).matrix),
            forall|a: int, b: int|
                old(self).matrix.inside(a, b) ==> #[trigger] old(self).matrix.cell(a, b)
                    == finder_layer(a, b),
        ensures
            sized(final(self).matrix),
            final(self).version == old(self).version,
            final(self).mask == old(self).mask,
            forall|a: int, b: int|
                final(self).matrix.inside(a, b) ==> #[trigger] final(self).matrix.cell(a, b)
                    == alignment_layer(a, b),
    {
        // The centers of the alignment patterns of version 3 are the
        // combinations of 6 and 26; those that overlap a finder are skipped.
        assert(self.matrix.cell(4, 4) != Module::Unknown);
        self.try_add_alignment(6, 6);
        assert(self.matrix.cell(4, 24) != Module::Unknown);
        self.try_add_alignment(6, 26);
        assert(self.matrix.cell(24, 4) != Module::Unknown);
        self.try_add_alignment(26, 6);
        self.try_add_alignment(26, 26);
    }

    // cx and cy give the center
    fn try_add_alignment(&mut self, cx: usize, cy: usize)
        requires
            sized(old(self).matrix),
            2 <= cx,
            2 <= cy,
            cx + 3 <= SIZE,
            cy + 3 <= SIZE,
        ensures
            sized(final(self).matrix),
            final(self).version == old(self).version,
            final(self).mask == old(self).mask,
            forall|a: int, b: int|
                final(self).matrix.inside(a, b) ==> #[trigger] final(self).matrix.cell(a, b) == if (
                !exists|p: int, q: int|
                    in_rect(p, q, cx - 2, cy - 2, cx + 2, cy + 2) && #[trigger] old(
                        self,
                    ).matrix.cell(p, q) != Module::Unknown) && in_rect(
                    a,
                    b,
                    cx - 2,
                    cy - 2,
                    cx + 2,
                    cy + 2,
                ) {
                    Module::Function(alignment_dark(a - (cx - 2), b - (cy - 2)))
                } else {
                    old(self).matrix.cell(a, b)
                },
    {
        let x = cx - 2;
        let y = cy - 2;
        if !self.matrix.any_in_square(x, y, 4) {
            self.matrix.set_square(x, y, 5, Module::Function(true));
            self.matrix.set_square_outline(x + 1, y + 1, 3, Module::Function(false));
        }
    }

    fn add_timing_patterns(&mut self)
        requires
            sized(old(self).matrix),
            forall|a: int, b: int|
                old(self).matrix.inside(a, b) ==> #[trigger] old(self).matrix.cell(a, b)
                    == alignment_layer(a, b),
        ensures
            sized(final(self).matrix),
            final(self).version == old(self).version,
            final(self).mask == old(self).mask,
            forall|a: int, b: int|
                final(self).matrix.inside(a, b) ==> #[trigger] final(self).matrix.cell(a, b)
                    == timing_layer(a, b),
    {
        let offset: usize = 6;
        let mut i: usize = offset;
        while i < self.matrix.size - offset
            invariant
                sized(self.matrix),
                self.version == old(self).version,
                self.mask == old(self).mask,
                offset == 6,
                6 <= i <= 23,
                forall|a: int, b: int|
                    self.matrix.inside(a, b) ==> #[trigger] self.matrix.cell(a, b) == timing_upto(
                        a,
                        b,
                        i as int,
                    ),
            decreases 23 - i,
        {
            let v = i % 2 == 0;
            self.set_timing(i, offset, v);
            self.set_timing(offset, i, v);
            i = i + 1;
        }
    }

    fn set_timing(&mut self, x: usize, y: usize, v: bool)
        requires
            sized(old(self).matrix),
            old(self).matrix.inside(x as int, y as int),
            // Timing patterns agree with the finder and alignment modules they
            // cross.
            is_fun_module(old(self).matrix.cell(x as int, y as int)) ==> is_dark_module(
                old(self).matrix.cell(x as int, y as int),
            ) == v,
        ensures
            sized(final(self).matrix),
            final(self).version == old(self).version,
            final(self).mask == old(self).mask,
            forall|a: int, b: int|
                final(self).matrix.inside(a, b) ==> #[trigger] final(self).matrix.cell(a, b) == if a
                    == x && b == y {
                    Module::Function(v)
                } else {
                    old(self).matrix.cell(a, b)
                },
    {
        self.matrix.set(x, y, Module::Function(v));
    }

    fn add_dark_module(&mut self)
        requires
            sized(old(self).matrix),
            old(self).version.0 == SUPPORTED_VERSION,
            forall|a: int, b: int|
                old(self).matrix.inside(a, b) ==> #[trigger] old(self).matrix.cell(a, b)
                    == timing_layer(a, b),
        ensures
            sized(final(self).matrix),
            final(self).version == old(self).version,
            final(self).mask == old(self).mask,
            forall|a: int, b: int|
                final(self).matrix.inside(a, b) ==> #[trigger] final(self).matrix.cell(a, b)
                    == dark_layer(a, b),
    {
        let (x, y) = self.version.dark_module_pos();
        self.matrix.set(x, y, Module::Function(true));
    }

    fn add_reserved_areas(&mut self)
        requires
            sized(old(self).matrix),
            forall|a: int, b: int|
                old(self).matrix.inside(a, b) ==> #[trigger] old(self).matrix.cell(a, b)
                    == dark_layer(a, b),
        ensures
            sized(final(self).matrix),
            final(self).version == old(self).version,
            final(self).mask == old(self).mask,
            forall|a: int, b: int|
                final(self).matrix.inside(a, b) ==> #[trigger] final(self).matrix.cell(a, b)
                    == fun_layout(a, b),
    {
        reveal(fun_layout);
        let size = self.matrix.size;

        // Around the top left finder, avoiding the timing patterns.
        self.reserve_rect(0, 8, 5, 8);
        self.reserve_rect(7, 8, 8, 8);
        self.reserve_rect(8, 0, 8, 5);
        self.reserve_rect(8, 7, 8, 7);

        // Top right.
        self.reserve_rect(size - 8, 8, size - 1, 8);

        // Bottom left.
        self.reserve_rect(8, size - 7, 8, size - 1);
    }

    fn reserve_rect(&mut self, x0: usize, y0: usize, x1: usize, y1: usize)
        requires
            sized(old(self).matrix),
            x1 < SIZE,
            y1 < SIZE,
            // The area is free.
            forall|a: int, b: int|
                in_rect(a, b, x0 as int, y0 as int, x1 as int, y1 as int) ==> #[trigger] old(
                    self,
                ).matrix.cell(a, b) == Module::Unknown,
        ensures
            sized(final(self).matrix),
            final(self).version == old(self).version,
            final(self).mask == old(self).mask,
            forall|a: int, b: int|
                final(self).matrix.inside(a, b) ==> #[trigger] final(self).matrix.cell(a, b) == if in_rect(
                    a,
                    b,
                    x0 as int,
                    y0 as int,
                    x1 as int,
                    y1 as int,
                ) {
                    Module::Reserved
                } else {
                    old(self).matrix.cell(a, b)
                },
    {
        self.matrix.set_rect(x0, y0, x1, y1, Module::Reserved);
    }

    /// Place the data bits along the zig-zag traversal, skipping function
    /// cells; there is exactly one free cell for each bit.
    pub fn add_raw_data(&mut self, v: &BitStream)
        requires
            sized(old(self).matrix),
            v@.len() == FREE_CELLS,
            forall|a: int, b: int|
                old(self).matrix.inside(a, b) ==> #[trigger] old(self).matrix.cell(a, b)
                    == fun_layout(a, b),
        ensures
            sized(final(self).matrix),
            final(self).version == old(self).version,
            final(self).mask == old(self).mask,
            forall|a: int, b: int|
                final(self).matrix.inside(a, b) ==> #[trigger] final(self).matrix.cell(a, b)
                    == placed_cell(v@, a, b),
            // Function cells are never overwritten.
            forall|a: int, b: int|
                final(self).matrix.inside(a, b) && is_fun_module(old(self).matrix.cell(a, b))
                    ==> #[trigger] final(self).matrix.cell(a, b) == old(self).matrix.cell(a, b),
    {
        proof {
            lemma_layout_free_unknown();
            lemma_free_cells();
        }
        let len = v.len();
        let mut vi: usize = 0;
        let mut it = ZigZagIt::new(self.matrix.size);
        let ghost mut k: int = 0;
        loop
            invariant
                sized(self.matrix),
                self.version == old(self).version,
                self.mask == old(self).mask,
                len == v@.len(),
                len == FREE_CELLS,
                free_before(zz_steps()) == FREE_CELLS,
                it.wf(),
                it.side_len() == SIZE,
                k == 58 * it.position().0 + 2 * it.position().1 + it.position().2,
                0 <= k <= zz_steps(),
                vi == free_before(k),
                vi <= k,
                forall|a: int, b: int|
                    self.matrix.inside(a, b) ==> #[trigger] self.matrix.cell(a, b) == placed_upto(
                        v@,
                        a,
                        b,
                        k,
                    ),
            ensures
                sized(self.matrix),
                self.version == old(self).version,
                self.mask == old(self).mask,
                k == zz_steps(),
                vi == len,
                forall|a: int, b: int|
                    self.matrix.inside(a, b) ==> #[trigger] self.matrix.cell(a, b) == placed_upto(
                        v@,
                        a,
                        b,
                        k,
                    ),
            decreases zz_steps() - k,
        {
            let ghost pos = it.position();
            match it.next() {
                None => {
                    assert(zz_bands(SIZE as int) == 14);
                    break;
                },
                Some((x, y)) => {
                    proof {
                        lemma_zz_step(pos.0, pos.1, pos.2);
                        lemma_zz_at(k);
                        lemma_place_step(v@, k);
                        lemma_free_before_mono(k + 1, zz_steps());
                    }
                    if !self.matrix.is_fun(x, y) {
                        let bit = v.get(vi);
                        self.matrix.set_data(x, y, bit);
                        vi = vi + 1;
                    }
                    proof {
                        k = k + 1;
                    }
                },
            }
        }
        // Every bit was placed.
        assert(vi == len);
        proof {
            assert(k == zz_steps());
            assert forall|a: int, b: int| #[trigger]
                self.matrix.inside(a, b) implies self.matrix.cell(a, b) == placed_cell(v@, a, b) by {
                if a != 6 {
                    lemma_zz_index(a, b);
                } else {
                    reveal(fun_layout);
                    assert(is_fun_module(fun_layout(a, b)));
                }
            }
        }
    }

    /// Write the format bits around the finders.
    fn add_format(&mut self, bv: &BitStream)
        requires
            sized(old(self).matrix),
            bv@.len() == 15,
        ensures
            sized(final(self).matrix),
            final(self).version == old(self).version,
            final(self).mask == old(self).mask,
            forall|a: int, b: int|
                final(self).matrix.inside(a, b) ==> #[trigger] final(self).matrix.cell(a, b)
                    == with_format(old(self).matrix.cell(a, b), bv@, a, b),
    {
        let size = self.matrix.size;
        let ghost s0 = self.matrix;
        // Info surrounding the top left finder.
        let mut i: usize = 0;
        let mut x: usize = 0;
        while x < 8
            invariant
                sized(self.matrix),
                size == SIZE,
                self.version == old(self).version,
                self.mask == old(self).mask,
                bv@.len() == 15,
                x <= 8,
                i == if x <= 6 {
                    x as int
                } else {
                    x - 1
                },
                forall|a: int, b: int|
                    self.matrix.inside(a, b) ==> #[trigger] self.matrix.cell(a, b) == if b == 8 && a
                        < x && a <= 7 && a != 6 {
                        Module::Function(bv@[format_index1(a, b)])
                    } else {
                        s0.cell(a, b)
                    },
            decreases 8 - x,
        {
            // Avoid the timing pattern.
            if x != 6 {
                self.matrix.set_fun(x, 8, bv.get(i));
                i = i + 1;
            }
            x = x + 1;
        }
        let ghost s1 = self.matrix;
        let mut y: usize = 9;
        while y > 0
            invariant
                sized(self.matrix),
                size == SIZE,
                self.version == old(self).version,
                self.mask == old(self).mask,
                bv@.len() == 15,
                y <= 9,
                i == 7 + (9 - y) - if y <= 6 {
                    1int
                } else {
                    0int
                },
                forall|a: int, b: int|
                    self.matrix.inside(a, b) ==> #[trigger] self.matrix.cell(a, b) == if a == 8 && y
                        <= b <= 8 && b != 6 {
                        Module::Function(bv@[format_index1(a, b)])
                    } else {
                        s1.cell(a, b)
                    },
            decreases y,
        {
            y = y - 1;
            // Avoid the timing pattern.
            if y != 6 {
                self.matrix.set_fun(8, y, bv.get(i));
                i = i + 1;
            }
        }
        // Half to the right of the bottom left finder.
        let ghost s2 = self.matrix;
        i = 0;
        y = size;
        while y > size - 7
            invariant
                sized(self.matrix),
                size == SIZE,
                self.version == old(self).version,
                self.mask == old(self).mask,
                bv@.len() == 15,
                22 <= y <= 29,
                i == 29 - y,
                forall|a: int, b: int|
                    self.matrix.inside(a, b) ==> #[trigger] self.matrix.cell(a, b) == if a == 8 && y
                        <= b <= 28 {
                        Module::Function(bv@[format_index2(a, b)])
                    } else {
                        s2.cell(a, b)
                    },
            decreases y,
        {
            y = y - 1;
            self.matrix.set_fun(8, y, bv.get(i));
            i = i + 1;
        }
        // The rest below the top right finder.
        let ghost s3 = self.matrix;
        x = size - 8;
        while x < size
            invariant
                sized(self.matrix),
                size == SIZE,
                self.version == old(self).version,
                self.mask == old(self).mask,
                bv@.len() == 15,
                21 <= x <= 29,
                i == 7 + x - 21,
                forall|a: int, b: int|
                    self.matrix.inside(a, b) ==> #[trigger] self.matrix.cell(a, b) == if b == 8 && 21
                        <= a < x {
                        Module::Function(bv@[format_index2(a, b)])
                    } else {
                        s3.cell(a, b)
                    },
            decreases 29 - x,
        {
            self.matrix.set_fun(x, 8, bv.get(i));
            i = i + 1;
            x = x + 1;
        }
    }

    /// Add the function patterns: finders with separators, alignment
    /// patterns, timing patterns, the dark module and the reserved areas.
    pub fn add_fun_patterns(&mut self)
        requires
            sized(old(self).matrix),
            old(self).version.0 == SUPPORTED_VERSION,
            forall|a: int, b: int|
                old(self).matrix.inside(a, b) ==> #[trigger] old(self).matrix.cell(a, b)
                    == Module::Unknown,
        ensures
            sized(final(self).matrix),
            final(self).version == old(self).version,
            final(self).mask == old(self).mask,
            forall|a: int, b: int|
                final(self).matrix.inside(a, b) ==> #[trigger] final(self).matrix.cell(a, b)
                    == fun_layout(a, b),
    {
        self.add_finders();
        self.add_alignments();
        self.add_timing_patterns();
        self.add_dark_module();
        self.add_reserved_areas();
    }
}

/// The number of two-column bands of the zig-zag traversal of a grid of side
/// `s`.
pub open spec fn zz_bands(s: int) -> int {
    (s - 1) / 2
}

/// The right column of band `p`; the vertical timing column 6 is skipped.
pub open spec fn zz_right_col(s: int, p: int) -> int {
    if s - 1 - 2 * p >= 8 {
        s - 1 - 2 * p
    } else {
        s - 2 - 2 * p
    }
}

/// The cell visited in band `p`, at row step `r`, in the right (`side == 0`)
/// or left (`side == 1`) column. Even bands go up, odd bands go down.
pub open spec fn zz_cell(s: int, p: int, r: int, side: int) -> (int, int) {
    (zz_right_col(s, p) - side, if p % 2 == 0 {
        s - 1 - r
    } else {
        r
    })
}

/// The position after `(p, r, side)`.
pub open spec fn zz_next(s: int, pos: (int, int, int)) -> (int, int, int) {
    if pos.2 == 0 {
        (pos.0, pos.1, 1)
    } else if pos.1 < s - 1 {
        (pos.0, pos.1 + 1, 0)
    } else {
        (pos.0 + 1, 0, 0)
    }
}

/// A position of the traversal of a grid of side `s`: a cell, or the end.
pub open spec fn valid_position(s: int, pos: (int, int, int)) -> bool {
    &&& 0 <= pos.0 <= zz_bands(s)
    &&& pos.0 == zz_bands(s) ==> pos.1 == 0 && pos.2 == 0
    &&& pos.0 < zz_bands(s) ==> 0 <= pos.1 < s && (pos.2 == 0 || pos.2 == 1)
}

/// A zig-zag traversal of the data area, as the QR standard lays data
/// out: from the bottom right corner, in bands two columns wide going up and
/// down in turn, alternating between the right and left column of the band,
/// and skipping the vertical timing column. Function cells are not skipped.
pub struct ZigZagIt {
    size: usize,
    // Should the next step be horizontal?
    horizontal_next: bool,
    // Are we moving upwards?
    upwards: bool,
    x: usize,
    y: usize,
    // False once the traversal is over.
    valid: bool,
    // Band, row step and side of the current cell.
    pos: Ghost<(int, int, int)>,
}

impl ZigZagIt {
    /// The side of the grid.
    pub closed spec fn side_len(&self) -> int {
        self.size as int
    }

    /// The band, row step and side of the next cell; the band is
    /// `zz_bands(side_len())` once the traversal is over.
    pub closed spec fn position(&self) -> (int, int, int) {
        self.pos@
    }

    /// The state agrees with the position.
    pub closed spec fn wf(&self) -> bool {
        let s = self.size as int;
        let (p, r, sd) = self.pos@;
        &&& 9 <= s <= 0x10000
        &&& s % 2 == 1
        &&& 0 <= p <= zz_bands(s)
        &&& (p == zz_bands(s)) == !self.valid
        &&& p == zz_bands(s) ==> r == 0 && sd == 0
        &&& p < zz_bands(s) ==> {
            &&& 0 <= r < s
            &&& (sd == 0 || sd == 1)
            &&& (self.x as int, self.y as int) == zz_cell(s, p, r, sd)
            &&& self.horizontal_next == (sd == 0)
            &&& self.upwards == (p % 2 == 0)
        }
    }

    /// A traversal of a grid of odd side `size`.
    pub fn new(size: usize) -> (r: Self)
        requires
            9 <= size <= 0x10000,
            size % 2 == 1,
        ensures
            r.wf(),
            r.side_len() == size,
            r.position() == (0int, 0int, 0int),
            valid_position(size as int, r.position()),
    {
        Self {
            size: size,
            horizontal_next: true,
            upwards: true,
            x: size - 1,
            y: size - 1,
            valid: true,
            pos: Ghost((0, 0, 0)),
        }
    }

    fn advance(&mut self)
        requires
            old(self).valid,
            old(self).x < old(self).size,
            old(self).y < old(self).size,
            old(self).size >= 1,
        ensures
            old(self).horizontal_next ==> *final(self) == old(self).step_horizontally(),
            !old(self).horizontal_next ==> *final(self) == old(self).step_vertically(),
    {
        if self.horizontal_next {
            self.move_horizontally();
        } else {
            self.move_vertically();
        }
    }

    /// The state after a horizontal step.
    closed spec fn step_horizontally(self) -> Self {
        ZigZagIt {
            x: if self.x == 0 {
                self.x
            } else if self.x == 7 {
                5
            } else {
                (self.x - 1) as usize
            },
            valid: self.valid && self.x != 0,
            horizontal_next: false,
            ..self
        }
    }

    /// The state after a vertical step.
    closed spec fn step_vertically(self) -> Self {
        if (self.upwards && self.y == 0) || (!self.upwards && self.y == self.size - 1) {
            ZigZagIt {
                upwards: !self.upwards,
                horizontal_next: true,
                ..self.step_horizontally()
            }
        } else {
            ZigZagIt {
                y: if self.upwards {
                    (self.y - 1) as usize
                } else {
                    (self.y + 1) as usize
                },
                x: (self.x + 1) as usize,
                horizontal_next: true,
                ..self
            }
        }
    }

    fn move_horizontally(&mut self)
        ensures
            *final(self) == old(self).step_horizontally(),
    {
        match self.x {
            0 => self.valid = false,
            // Step over the vertical timing column.
            7 => self.x = 5,
            _ => self.x = self.x - 1,
        }
        self.horizontal_next = false;
    }

    fn move_vertically(&mut self)
        requires
            old(self).size >= 1,
            old(self).x < old(self).size,
            old(self).y < old(self).size,
        ensures
            *final(self) == old(self).step_vertically(),
    {
        if (self.upwards && self.y == 0) || (!self.upwards && self.y == self.size - 1) {
            // At the edge, move to the next band instead of zagging.
            self.upwards = !self.upwards;
            self.move_horizontally();
        } else {
            // Zag motion; y grows downwards.
            if self.upwards {
                self.y = self.y - 1;
            } else {
                self.y = self.y + 1;
            }
            self.x = self.x + 1;
        }
        self.horizontal_next = true;
    }

    /// The next cell, or `None` once the traversal is over.
    pub fn next(&mut self) -> (r: Option<(usize, usize)>)
        requires
            old(self).wf(),
        ensures
            final(self).wf(),
            final(self).side_len() == old(self).side_len(),
            valid_position(final(self).side_len(), final(self).position()),
            old(self).position().0 < zz_bands(old(self).side_len()) ==> {
                &&& r matches Some(c)
                &&& (c.0 as int, c.1 as int) == zz_cell(
                    old(self).side_len(),
                    old(self).position().0,
                    old(self).position().1,
                    old(self).position().2,
                )
                &&& final(self).position() == zz_next(old(self).side_len(), old(self).position())
            },
            old(self).position().0 >= zz_bands(old(self).side_len()) ==> r is None
                && final(self).position() == old(self).position(),
    {
        if !self.valid {
            return None;
        }
        let res = Some((self.x, self.y));
        let ghost s = self.size as int;
        let ghost old_pos = self.pos@;
        proof {
            assert(self.x < self.size);
        }
        self.advance();
        self.pos = Ghost(zz_next(s, old_pos));
        res
    }
}

/// The number of cells the zig-zag traversal of a version 3 grid visits.
pub open spec fn zz_steps() -> int {
    812int
}

/// The cell visited at step `k` of the traversal of a version 3 grid.
pub open spec fn zz_at(k: int) -> (int, int) {
    zz_cell(SIZE as int, k / 58, (k % 58) / 2, k % 2)
}

/// The step at which the traversal of a version 3 grid visits `(x, y)`, for
/// `x` other than the timing column 6.
pub open spec fn zz_index(x: int, y: int) -> int {
    let q = if x >= 7 {
        28 - x
    } else {
        27 - x
    };
    let p = q / 2;
    let r = if p % 2 == 0 {
        28 - y
    } else {
        y
    };
    58 * p + 2 * r + q % 2
}

proof fn lemma_layout_free_unknown()
    ensures
        forall|x: int, y: int| !is_fun_module(#[trigger] fun_layout(x, y)) ==> fun_layout(x, y) == Module::Unknown,
{
    reveal(fun_layout);
}

/// Every cell outside column 6 is visited, at step `zz_index`.
pub proof fn lemma_zz_index(x: int, y: int)
    requires
        0 <= x < SIZE,
        0 <= y < SIZE,
        x != 6,
    ensures
        0 <= zz_index(x, y) < zz_steps(),
        zz_at(zz_index(x, y)) == (x, y),
{
}

/// Each step visits a cell of the grid outside column 6, and `zz_index` gives
/// the step back.
pub proof fn lemma_zz_at(k: int)
    requires
        0 <= k < zz_steps(),
    ensures
        0 <= zz_at(k).0 < SIZE,
        0 <= zz_at(k).1 < SIZE,
        zz_at(k).0 != 6,
        zz_index(zz_at(k).0, zz_at(k).1) == k,
{
}

proof fn lemma_zz_step(p: int, r: int, sd: int)
    requires
        valid_position(SIZE as int, (p, r, sd)),
        p < zz_bands(SIZE as int),
    ensures
        zz_at(58 * p + 2 * r + sd) == zz_cell(SIZE as int, p, r, sd),
        ({
            let n = zz_next(SIZE as int, (p, r, sd));
            58 * n.0 + 2 * n.1 + n.2 == 58 * p + 2 * r + sd + 1
        }),
{
    let k = 58 * p + 2 * r + sd;
    assert(k / 58 == p);
    assert(k % 58 == 2 * r + sd);
    assert((k % 58) / 2 == r);
    assert(k % 2 == sd);
}

proof fn lemma_place_step(bits: Seq<bool>, k: int)
    requires
        0 <= k < zz_steps(),
    ensures
        ({
            let (x, y) = zz_at(k);
            &&& placed_upto(bits, x, y, k) == if is_fun_module(fun_layout(x, y)) {
                fun_layout(x, y)
            } else {
                Module::Unknown
            }
            &&& free_before(k + 1) == free_before(k) + if is_fun_module(fun_layout(x, y)) {
                0int
            } else {
                1int
            }
            &&& forall|a: int, b: int|
                0 <= a < SIZE && 0 <= b < SIZE ==> #[trigger] placed_upto(bits, a, b, k + 1) == if a
                    == x && b == y && !is_fun_module(fun_layout(x, y)) {
                    Module::Data(bits[free_before(k)])
                } else {
                    placed_upto(bits, a, b, k)
                }
        }),
{
    let (x, y) = zz_at(k);
    lemma_zz_at(k);
    assert forall|a: int, b: int| 0 <= a < SIZE && 0 <= b < SIZE implies #[trigger] placed_upto(
        bits,
        a,
        b,
        k + 1,
    ) == if a == x && b == y && !is_fun_module(fun_layout(x, y)) {
        Module::Data(bits[free_before(k)])
    } else {
        placed_upto(bits, a, b, k)
    } by {
        if a != 6 {
            lemma_zz_index(a, b);
        }
    }
}

/// The number of cells free for data among the first `k` visited.
pub open spec fn free_before(k: int) -> int
    decreases k,
{
    if k <= 0 {
        0
    } else {
        free_before(k - 1) + if is_fun_module(fun_layout(zz_at(k - 1).0, zz_at(k - 1).1)) {
            0int
        } else {
            1int
        }
    }
}

/// The number of cells free for data in a version 3 grid.
pub const FREE_CELLS: usize = 567;

proof fn lemma_band_0()
    ensures
        free_before(58) == free_before(0) + 30,
{
    reveal(fun_layout);
    reveal_with_fuel(free_before, 59);
}

proof fn lemma_band_1()
    ensures
        free_before(116) == free_before(58) + 30,
{
    reveal(fun_layout);
    reveal_with_fuel(free_before, 59);
}

proof fn lemma_band_2()
    ensures
        free_before(174) == free_before(116) + 35,
{
    reveal(fun_layout);
    reveal_with_fuel(free_before, 59);
}

proof fn lemma_band_3()
    ensures
        free_before(232) == free_before(174) + 40,
{
    reveal(fun_layout);
    reveal_with_fuel(free_before, 59);
}

proof fn lemma_band_4()
    ensures
        free_before(290) == free_before(232) + 56,
{
    reveal(fun_layout);
    reveal_with_fuel(free_before, 59);
}

proof fn lemma_band_5()
    ensures
        free_before(348) == free_before(290) + 56,
{
    reveal(fun_layout);
    reveal_with_fuel(free_before, 59);
}

proof fn lemma_band_6()
    ensures
        free_before(406) == free_before(348) + 56,
{
    reveal(fun_layout);
    reveal_with_fuel(free_before, 59);
}

proof fn lemma_band_7()
    ensures
        free_before(464) == free_before(406) + 56,
{
    reveal(fun_layout);
    reveal_with_fuel(free_before, 59);
}

proof fn lemma_band_8()
    ensures
        free_before(522) == free_before(464) + 56,
{
    reveal(fun_layout);
    reveal_with_fuel(free_before, 59);
}

proof fn lemma_band_9()
    ensures
        free_before(580) == free_before(522) + 56,
{
    reveal(fun_layout);
    reveal_with_fuel(free_before, 59);
}

proof fn lemma_band_10()
    ensures
        free_before(638) == free_before(580) + 24,
{
    reveal(fun_layout);
    reveal_with_fuel(free_before, 59);
}

proof fn lemma_band_11()
    ensures
        free_before(696) == free_before(638) + 24,
{
    reveal(fun_layout);
    reveal_with_fuel(free_before, 59);
}

proof fn lemma_band_12()
    ensures
        free_before(754) == free_before(696) + 24,
{
    reveal(fun_layout);
    reveal_with_fuel(free_before, 59);
}

proof fn lemma_band_13()
    ensures
        free_before(812) == free_before(754) + 24,
{
    reveal(fun_layout);
    reveal_with_fuel(free_before, 59);
}

/// The traversal meets exactly `FREE_CELLS` free cells, band by band:
/// the bands of columns 28 to 21 hold 30, 30, 35 and 40, the six bands of
/// columns 20 to 9 hold 56 each, and the four bands left of column 9 hold 24
/// each.
pub proof fn lemma_free_cells()
    ensures
        free_before(zz_steps()) == FREE_CELLS,
{
    lemma_band_0();
    lemma_band_1();
    lemma_band_2();
    lemma_band_3();
    lemma_band_4();
    lemma_band_5();
    lemma_band_6();
    lemma_band_7();
    lemma_band_8();
    lemma_band_9();
    lemma_band_10();
    lemma_band_11();
    lemma_band_12();
    lemma_band_13();
}

/// Counting free cells never goes down.
pub proof fn lemma_free_before_mono(a: int, b: int)
    requires
        0 <= a <= b,
    ensures
        free_before(a) <= free_before(b),
    decreases b,
{
    if a < b {
        lemma_free_before_mono(a, b - 1);
    }
}

/// The grid after data placement: function cells as laid out, and each other
/// cell the next bit of the stream in traversal order.
pub open spec fn placed_cell(bits: Seq<bool>, x: int, y: int) -> Module {
    if is_fun_module(fun_layout(x, y)) {
        fun_layout(x, y)
    } else {
        Module::Data(bits[free_before(zz_index(x, y))])
    }
}

/// Placement after the first `k` steps.
pub open spec fn placed_upto(bits: Seq<bool>, x: int, y: int, k: int) -> Module {
    if is_fun_module(fun_layout(x, y)) {
        fun_layout(x, y)
    } else if x != 6 && zz_index(x, y) < k {
        Module::Data(bits[free_before(zz_index(x, y))])
    } else {
        Module::Unknown
    }
}

/// The index of the format bit at `(x, y)` in the copy around the top left
/// finder, or -1. The timing row and column are skipped.
pub open spec fn format_index1(x: int, y: int) -> int {
    if y == 8 && 0 <= x <= 5 {
        x
    } else if x == 7 && y == 8 {
        6
    } else if x == 8 && y == 8 {
        7
    } else if x == 8 && y == 7 {
        8
    } else if x == 8 && 0 <= y <= 5 {
        14 - y
    } else {
        -1
    }
}

/// The index of the format bit at `(x, y)` in the copy split between the
/// bottom left and top right finders, or -1.
pub open spec fn format_index2(x: int, y: int) -> int {
    if x == 8 && 22 <= y <= 28 {
        28 - y
    } else if y == 8 && 21 <= x <= 28 {
        x - 14
    } else {
        -1
    }
}

/// Where format bit `i` stands in the first copy.
pub open spec fn format_pos1(i: int) -> (int, int) {
    if i < 6 {
        (i, 8)
    } else if i == 6 {
        (7, 8)
    } else if i == 7 {
        (8, 8)
    } else if i == 8 {
        (8, 7)
    } else {
        (8, 14 - i)
    }
}

/// Where format bit `i` stands in the second copy.
pub open spec fn format_pos2(i: int) -> (int, int) {
    if i < 7 {
        (8, 28 - i)
    } else {
        (i + 14, 8)
    }
}

/// A cell after the format bits are written over it.
pub open spec fn with_format(c: Module, bits: Seq<bool>, x: int, y: int) -> Module {
    if format_index1(x, y) >= 0 {
        Module::Function(bits[format_index1(x, y)])
    } else if format_index2(x, y) >= 0 {
        Module::Function(bits[format_index2(x, y)])
    } else {
        c
    }
}

/// The bytes of the data bit stream of a payload.
pub open spec fn data_codewords(payload: Seq<u8>) -> Seq<u8> {
    choose|d: Seq<u8>| bytes_to_bits(d) == data_bits(payload)
}

/// The bits placed in the grid: data codewords, error correction codewords
/// and the remainder bits.
pub open spec fn codeword_stream(payload: Seq<u8>) -> Seq<bool> {
    let d = data_codewords(payload);
    bytes_to_bits(d + ec_codewords(d)) + zeros(7)
}

/// The grid after data placement, as a function; `Unknown` outside it.
pub open spec fn placed_fn(bits: Seq<bool>) -> spec_fn(int, int) -> Module {
    |x: int, y: int|
        if 0 <= x < SIZE && 0 <= y < SIZE {
            placed_cell(bits, x, y)
        } else {
            Module::Unknown
        }
}

/// The mask used for a payload: the one asked for, or else the best one.
pub open spec fn chosen_mask(payload: Seq<u8>, asked: Option<Mask>) -> int {
    match asked {
        Some(m) => m.0 as int,
        None => best_mask(placed_fn(codeword_stream(payload)), SIZE as nat, 8),
    }
}

/// The finished grid of a payload under mask `m`.
pub open spec fn final_cell(payload: Seq<u8>, m: int, x: int, y: int) -> Module {
    with_format(
        masked_module(placed_cell(codeword_stream(payload), x, y), m, x, y),
        value_bits(format_word(m), 15),
        x,
        y,
    )
}

/// A finished grid has no unknown and no reserved cell.
pub proof fn lemma_final_complete(payload: Seq<u8>, m: int)
    ensures
        forall|x: int, y: int|
            0 <= x < SIZE && 0 <= y < SIZE ==> #[trigger] final_cell(payload, m, x, y)
                != Module::Unknown && final_cell(payload, m, x, y) != Module::Reserved,
{
    reveal(fun_layout);
}

/// The two copies of the format information hold the same 15 bits, those of
/// the format word of the mask.
pub proof fn lemma_format_copies_agree(payload: Seq<u8>, m: int)
    ensures
        forall|i: int|
            0 <= i < 15 ==> #[trigger] final_cell(payload, m, format_pos1(i).0, format_pos1(i).1)
                == final_cell(payload, m, format_pos2(i).0, format_pos2(i).1) && final_cell(
                payload,
                m,
                format_pos1(i).0,
                format_pos1(i).1,
            ) == Module::Function(value_bits(format_word(m), 15)[i]),
{
}

} // verus!
