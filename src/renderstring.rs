//! Renders a QR code as text, one character per module by default.

use crate::matrix::{is_dark_module, Matrix};
use crate::qr::Qr;
use crate::text::{push_char, push_str};
use vstd::prelude::*;

verus! {

/// A renderer of QR codes as text.
pub struct StringRenderer {
    light: char,
    dark: char,
    module_w: usize,
    module_h: usize,
    qz: bool,
}

/// `k` copies of a character.
pub open spec fn repeat_char(c: char, k: nat) -> Seq<char> {
    Seq::new(k, |i: int| c)
}

/// `k` copies of a sequence.
pub open spec fn repeat_seq(s: Seq<char>, k: nat) -> Seq<char>
    decreases k,
{
    if k == 0 {
        Seq::empty()
    } else {
        repeat_seq(s, (k - 1) as nat) + s
    }
}

impl StringRenderer {
    /// The character of light modules.
    pub closed spec fn light_char(&self) -> char {
        self.light
    }

    /// The character of dark modules.
    pub closed spec fn dark_char(&self) -> char {
        self.dark
    }

    /// Characters per module, across.
    pub closed spec fn module_width(&self) -> nat {
        self.module_w as nat
    }

    /// Lines per module.
    pub closed spec fn module_height(&self) -> nat {
        self.module_h as nat
    }

    /// Is a quiet zone drawn?
    pub closed spec fn quiet(&self) -> bool {
        self.qz
    }

    /// Module dimensions at least 1 and small enough to count four of.
    pub closed spec fn wf(&self) -> bool {
        &&& 1 <= self.module_w <= usize::MAX / 4
        &&& 1 <= self.module_h <= usize::MAX / 4
    }

    /// Create a renderer: `.` for light, `#` for dark, one character per
    /// module, no quiet zone.
    pub fn new() -> (r: Self)
        ensures
            r.wf(),
            r.light_char() == '.',
            r.dark_char() == '#',
            r.module_width() == 1,
            r.module_height() == 1,
            !r.quiet(),
    {
        Self { light: '.', dark: '#', module_w: 1, module_h: 1, qz: false }
    }

    /// Set the light module character.
    pub fn light_module(self, v: char) -> (r: Self)
        ensures
            r.light_char() == v,
            r.dark_char() == self.dark_char(),
            r.module_width() == self.module_width(),
            r.module_height() == self.module_height(),
            r.quiet() == self.quiet(),
            r.wf() == self.wf(),
    {
        let mut s = self;
        s.light = v;
        s
    }

    /// Set the dark module character.
    pub fn dark_module(self, v: char) -> (r: Self)
        ensures
            r.dark_char() == v,
            r.light_char() == self.light_char(),
            r.module_width() == self.module_width(),
            r.module_height() == self.module_height(),
            r.quiet() == self.quiet(),
            r.wf() == self.wf(),
    {
        let mut s = self;
        s.dark = v;
        s
    }

    /// Set whether a quiet zone is drawn.
    pub fn quiet_zone(self, v: bool) -> (r: Self)
        ensures
            r.quiet() == v,
            r.light_char() == self.light_char(),
            r.dark_char() == self.dark_char(),
            r.module_width() == self.module_width(),
            r.module_height() == self.module_height(),
            r.wf() == self.wf(),
    {
        let mut s = self;
        s.qz = v;
        s
    }

    /// Set the characters across and lines down of each module.
    pub fn module_dimensions(self, w: usize, h: usize) -> (r: Self)
        requires
            w > 0 && h > 0,
            w <= usize::MAX / 4,
            h <= usize::MAX / 4,
        ensures
            r.wf(),
            r.module_width() == w,
            r.module_height() == h,
            r.light_char() == self.light_char(),
            r.dark_char() == self.dark_char(),
            r.quiet() == self.quiet(),
    {
        let mut s = self;
        s.module_w = w;
        s.module_h = h;
        s
    }

    /// Render a QR code.
    pub fn render(&self, qr: &Qr) -> (r: String)
        requires
            self.wf(),
            qr.matrix.wf(),
        ensures
            r@ == render_text(*self, qr.matrix),
    {
        self.render_matrix(&qr.matrix)
    }

    /// Render a grid.
    pub fn render_matrix(&self, matrix: &Matrix) -> (r: String)
        requires
            self.wf(),
            matrix.wf(),
        ensures
            r@ == render_text(*self, *matrix),
    {
        let mut res = String::new();
        self.qz_lines(&mut res);
        let mut y: usize = 0;
        while y < matrix.size
            invariant
                self.wf(),
                matrix.wf(),
                y <= matrix.size,
                res@ == quiet_lines(*self) + text_rows(*self, *matrix, y as int),
            decreases matrix.size - y,
        {
            // Repeat rows for taller modules.
            let ghost before = res@;
            let mut k: usize = 0;
            while k < self.module_h
                invariant
                    self.wf(),
                    matrix.wf(),
                    y < matrix.size,
                    k <= self.module_h,
                    res@ == before + repeat_seq(text_line(*self, *matrix, y as int), k as nat),
                decreases self.module_h - k,
            {
                let mut s = String::new();
                self.qz_chars(&mut s);
                let mut x: usize = 0;
                while x < matrix.size
                    invariant
                        self.wf(),
                        matrix.wf(),
                        y < matrix.size,
                        x <= matrix.size,
                        s@ == margin(*self) + cells_line(*self, *matrix, y as int, x as int),
                    decreases matrix.size - x,
                {
                    let c = if matrix.is_dark(x, y) {
                        self.dark
                    } else {
                        self.light
                    };
                    // Repeat characters for wider modules.
                    let ghost b2 = s@;
                    let mut j: usize = 0;
                    while j < self.module_w
                        invariant
                            j <= self.module_w,
                            s@ == b2 + repeat_char(c, j as nat),
                        decreases self.module_w - j,
                    {
                        push_char(&mut s, c);
                        j = j + 1;
                        assert(s@ =~= b2 + repeat_char(c, j as nat));
                    }
                    x = x + 1;
                    assert(s@ =~= margin(*self) + cells_line(*self, *matrix, y as int, x as int));
                }
                self.qz_chars(&mut s);
                push_char(&mut s, '\n');
                push_str(&mut res, s.as_str());
                k = k + 1;
                assert(res@ =~= before + repeat_seq(text_line(*self, *matrix, y as int), k as nat));
            }
            y = y + 1;
            assert(res@ =~= quiet_lines(*self) + text_rows(*self, *matrix, y as int));
        }
        self.qz_lines(&mut res);
        res
    }

    // Append empty lines for the quiet zone.
    fn qz_lines(&self, s: &mut String)
        requires
            self.wf(),
        ensures
            final(s)@ == old(s)@ + quiet_lines(*self),
    {
        if self.qz {
            let n = 4 * self.module_h;
            let mut i: usize = 0;
            while i < n
                invariant
                    i <= n,
                    s@ == old(s)@ + repeat_char('\n', i as nat),
                decreases n - i,
            {
                push_str(s, "\n");
                proof {
                    reveal_strlit("\n");
                }
                i = i + 1;
                assert(s@ =~= old(s)@ + repeat_char('\n', i as nat));
            }
        } else {
            assert(s@ =~= old(s)@ + quiet_lines(*self));
        }
    }

    // Append spaces for the quiet zone.
    fn qz_chars(&self, s: &mut String)
        requires
            self.wf(),
        ensures
            final(s)@ == old(s)@ + margin(*self),
    {
        if self.qz {
            let n = 4 * self.module_w;
            let mut i: usize = 0;
            while i < n
                invariant
                    i <= n,
                    s@ == old(s)@ + repeat_char(' ', i as nat),
                decreases n - i,
            {
                push_char(s, ' ');
                i = i + 1;
                assert(s@ =~= old(s)@ + repeat_char(' ', i as nat));
            }
        } else {
            assert(s@ =~= old(s)@ + margin(*self));
        }
    }
}

/// The spaces of the quiet zone on each side of a line.
pub open spec fn margin(r: StringRenderer) -> Seq<char> {
    if r.quiet() {
        repeat_char(' ', 4 * r.module_width())
    } else {
        Seq::empty()
    }
}

/// The empty lines of the quiet zone above and below.
pub open spec fn quiet_lines(r: StringRenderer) -> Seq<char> {
    if r.quiet() {
        repeat_char('\n', 4 * r.module_height())
    } else {
        Seq::empty()
    }
}

/// The characters of modules `0 .. hi` of row `y`.
pub open spec fn cells_line(r: StringRenderer, m: Matrix, y: int, hi: int) -> Seq<char>
    decreases hi,
{
    if hi <= 0 {
        Seq::empty()
    } else {
        cells_line(r, m, y, hi - 1) + repeat_char(
            if is_dark_module(m.cell(hi - 1, y)) {
                r.dark_char()
            } else {
                r.light_char()
            },
            r.module_width(),
        )
    }
}

/// One text line of row `y`.
pub open spec fn text_line(r: StringRenderer, m: Matrix, y: int) -> Seq<char> {
    margin(r) + cells_line(r, m, y, m.size as int) + margin(r) + seq!['\n']
}

/// The lines of rows `0 .. hi`, each repeated for the module height.
pub open spec fn text_rows(r: StringRenderer, m: Matrix, hi: int) -> Seq<char>
    decreases hi,
{
    if hi <= 0 {
        Seq::empty()
    } else {
        text_rows(r, m, hi - 1) + repeat_seq(text_line(r, m, hi - 1), r.module_height())
    }
}

/// The text of a grid.
pub open spec fn render_text(r: StringRenderer, m: Matrix) -> Seq<char> {
    quiet_lines(r) + text_rows(r, m, m.size as int) + quiet_lines(r)
}

} // verus!
