//! Shared parts of the renderers: a debug view of a grid, and RGB colors.

use crate::matrix::{is_dark_module, Matrix, Module};
use crate::text::{decimal, digit_char, hex_chars, hex_digit, hex_value, push_char, push_decimal, push_str};
use vstd::prelude::*;
use vstd::string::StringSliceAdditionalSpecFns;

verus! {

/// The debug character of a module.
pub open spec fn dbg_char(m: Module) -> char {
    match m {
        Module::Unknown => '?',
        Module::Reserved => '*',
        Module::Function(true) => '#',
        Module::Function(false) => '.',
        Module::Data(true) => 'X',
        Module::Data(false) => '-',
    }
}

/// Row `y` of the debug view, from column 0 up to `hi`.
pub open spec fn dbg_row(m: Matrix, y: int, hi: int) -> Seq<char>
    decreases hi,
{
    if hi <= 0 {
        Seq::empty()
    } else {
        dbg_row(m, y, hi - 1).push(dbg_char(m.cell(hi - 1, y)))
    }
}

/// Rows `0 .. hi` of the debug view, each ended by a newline.
pub open spec fn dbg_rows(m: Matrix, hi: int) -> Seq<char>
    decreases hi,
{
    if hi <= 0 {
        Seq::empty()
    } else {
        dbg_rows(m, hi - 1) + dbg_row(m, hi - 1, m.size as int).push('\n')
    }
}

/// Convert to a string, with a character for each kind of module, after a
/// leading newline.
pub fn to_dbg_string(matrix: &Matrix) -> (r: String)
    requires
        matrix.wf(),
    ensures
        r@ == seq!['\n'] + dbg_rows(*matrix, matrix.size as int),
{
    let mut res = String::new();
    push_char(&mut res, '\n');
    let mut y: usize = 0;
    while y < matrix.size
        invariant
            matrix.wf(),
            y <= matrix.size,
            res@ == seq!['\n'] + dbg_rows(*matrix, y as int),
        decreases matrix.size - y,
    {
        let ghost before = res@;
        let mut x: usize = 0;
        while x < matrix.size
            invariant
                matrix.wf(),
                y < matrix.size,
                x <= matrix.size,
                res@ == before + dbg_row(*matrix, y as int, x as int),
            decreases matrix.size - x,
        {
            let c = match matrix.get(x, y) {
                Module::Unknown => '?',
                Module::Reserved => '*',
                Module::Function(true) => '#',
                Module::Function(false) => '.',
                Module::Data(true) => 'X',
                Module::Data(false) => '-',
            };
            push_char(&mut res, c);
            x = x + 1;
        }
        push_char(&mut res, '\n');
        y = y + 1;
        assert(res@ =~= seq!['\n'] + dbg_rows(*matrix, y as int));
    }
    res
}

/// An RGB color.
#[derive(Clone, Copy, PartialEq, Eq, Debug, Structural)]
pub struct Color {
    pub r: u8,
    pub g: u8,
    pub b: u8,
}

/// An error from parsing a color.
#[derive(Debug, Copy, Clone, PartialEq, Eq, Structural)]
pub struct ParseColorError;

impl std::str::FromStr for Color {
    type Err = ParseColorError;

    fn from_str(s: &str) -> Result<Self, Self::Err> {
        Color::from_hex_str(s)
    }
}

/// The value of a one-character hexadecimal field.
pub open spec fn hex1(c: char) -> Option<u8> {
    hex_value(c)
}

/// The value of a two-character field as `u8::from_str_radix` reads it in
/// base 16: two digits, or a plus sign and one digit.
pub open spec fn hex2(c0: char, c1: char) -> Option<u8> {
    match (hex_value(c0), hex_value(c1)) {
        (Some(a), Some(b)) => Some((a * 16 + b) as u8),
        (None, Some(b)) => if c0 == '+' {
            Some(b)
        } else {
            None
        },
        _ => None,
    }
}

impl Color {
    /// A color from its parts.
    pub open spec fn new_spec(r: u8, g: u8, b: u8) -> Color {
        Color { r, g, b }
    }

    /// Create a color from its parts.
    #[verifier::when_used_as_spec(new_spec)]
    pub fn new(r: u8, g: u8, b: u8) -> (c: Self)
        ensures
            c == Color::new_spec(r, g, b),
    {
        Self { r, g, b }
    }

    /// Create a color from a number `0xRRGGBB`.
    pub fn hex(v: u32) -> (c: Self)
        ensures
            c.r == (v >> 16u32) as u8,
            c.g == (v >> 8u32) as u8,
            c.b == v as u8,
    {
        Self { r: (v >> 16) as u8, g: (v >> 8) as u8, b: v as u8 }
    }

    /// Create a color from `"#RGB"`, each digit doubled.
    pub fn from_4_hex(s: &str) -> (c: Result<Self, ParseColorError>)
        requires
            s.spec_bytes().len() >= 4,
        ensures
            c == Color::from_4_hex_spec(s.spec_bytes()),
    {
        let chars = s.as_bytes();
        if chars[0] != 35 {
            return Err(ParseColorError);
        }
        let r = match hex_digit(chars[1]) {
            Some(v) => v,
            None => {
                return Err(ParseColorError);
            },
        };
        let g = match hex_digit(chars[2]) {
            Some(v) => v,
            None => {
                return Err(ParseColorError);
            },
        };
        let b = match hex_digit(chars[3]) {
            Some(v) => v,
            None => {
                return Err(ParseColorError);
            },
        };
        proof {
            lemma_double_digit(r);
            lemma_double_digit(g);
            lemma_double_digit(b);
        }
        Ok(Color { r: (r << 4) | r, g: (g << 4) | g, b: (b << 4) | b })
    }

    /// Create a color from `"#RRGGBB"`.
    pub fn from_7_hex(s: &str) -> (c: Result<Self, ParseColorError>)
        requires
            s.spec_bytes().len() >= 7,
        ensures
            c == Color::from_7_hex_spec(s.spec_bytes()),
    {
        let t = s.as_bytes();
        if t[0] != 35 {
            return Err(ParseColorError);
        }
        let r = match parse_hex2(t[1], t[2]) {
            Some(v) => v,
            None => {
                return Err(ParseColorError);
            },
        };
        let g = match parse_hex2(t[3], t[4]) {
            Some(v) => v,
            None => {
                return Err(ParseColorError);
            },
        };
        let b = match parse_hex2(t[5], t[6]) {
            Some(v) => v,
            None => {
                return Err(ParseColorError);
            },
        };
        Ok(Color { r, g, b })
    }

    /// Parse `"#RGB"` or `"#RRGGBB"`; other lengths are an error.
    pub fn from_hex_str(s: &str) -> (c: Result<Self, ParseColorError>)
        ensures
            s.spec_bytes().len() != 4 && s.spec_bytes().len() != 7 ==> c is Err,
            s.spec_bytes().len() == 4 ==> c == Color::from_4_hex_spec(s.spec_bytes()),
            s.spec_bytes().len() == 7 ==> c == Color::from_7_hex_spec(s.spec_bytes()),
    {
        let n = s.as_bytes().len();
        if n == 4 {
            Color::from_4_hex(s)
        } else if n == 7 {
            Color::from_7_hex(s)
        } else {
            Err(ParseColorError)
        }
    }

    /// The result of `from_4_hex` on bytes `t`.
    pub open spec fn from_4_hex_spec(t: Seq<u8>) -> Result<Color, ParseColorError> {
        let (r, g, b) = (hex1(t[1] as char), hex1(t[2] as char), hex1(t[3] as char));
        if t[0] == '#' as u8 && r is Some && g is Some && b is Some {
            Ok(Color { r: (r.unwrap() * 17) as u8, g: (g.unwrap() * 17) as u8, b: (b.unwrap() * 17) as u8 })
        } else {
            Err(ParseColorError)
        }
    }

    /// The result of `from_7_hex` on bytes `t`.
    pub open spec fn from_7_hex_spec(t: Seq<u8>) -> Result<Color, ParseColorError> {
        let r = hex2(t[1] as char, t[2] as char);
        let g = hex2(t[3] as char, t[4] as char);
        let b = hex2(t[5] as char, t[6] as char);
        if t[0] == '#' as u8 && r is Some && g is Some && b is Some {
            Ok(Color { r: r.unwrap(), g: g.unwrap(), b: b.unwrap() })
        } else {
            Err(ParseColorError)
        }
    }

    /// The color as `"#rrggbb"`, in lowercase.
    pub fn to_hex_str(&self) -> (s: String)
        ensures
            s@ == seq!['#'] + hex_byte(self.r) + hex_byte(self.g) + hex_byte(self.b),
    {
        let mut s = String::new();
        push_char(&mut s, '#');
        push_hex_byte(&mut s, self.r);
        push_hex_byte(&mut s, self.g);
        push_hex_byte(&mut s, self.b);
        s
    }
}

proof fn lemma_double_digit(v: u8)
    requires
        v < 16,
    ensures
        (v << 4u8) | v == v * 17,
{
    assert((v << 4u8) | v == v * 17) by (bit_vector)
        requires
            v < 16,
    ;
}

/// The two lowercase hexadecimal digits of a byte.
pub open spec fn hex_byte(v: u8) -> Seq<char> {
    seq![hex_chars()[(v / 16) as int], hex_chars()[(v % 16) as int]]
}

fn push_hex_byte(s: &mut String, v: u8)
    ensures
        final(s)@ == old(s)@ + hex_byte(v),
{
    push_char(s, digit_char(v / 16));
    push_char(s, digit_char(v % 16));
    assert(final(s)@ =~= old(s)@ + hex_byte(v));
}

fn parse_hex2(c0: u8, c1: u8) -> (r: Option<u8>)
    ensures
        r == hex2(c0 as char, c1 as char),
{
    match (hex_digit(c0), hex_digit(c1)) {
        (Some(a), Some(b)) => Some(a * 16 + b),
        (None, Some(b)) => if c0 == 43 {
            Some(b)
        } else {
            None
        },
        _ => None,
    }
}

/// The largest width or height in pixels of a rendered image.
pub const MAX_PIXELS: usize = 0x100000;

/// The largest grid a renderer draws.
pub const MAX_RENDER_SIZE: usize = 0x400;

/// `a / b` rounded up.
pub open spec fn ceil_div(a: int, b: int) -> int {
    (a + b - 1) / b
}

/// The pixel offset of module `i`, after four modules of quiet zone if `qz`.
pub open spec fn pixel(qz: bool, i: int, cell: int) -> int {
    if qz {
        (i + 4) * cell
    } else {
        i * cell
    }
}

/// A rectangle `cw` by `ch` pixels at `(xp, yp)` as path commands.
pub open spec fn svg_rect(xp: nat, yp: nat, cw: nat, ch: nat) -> Seq<char> {
    seq!['M'] + decimal(xp) + seq![' '] + decimal(yp) + seq!['h'] + decimal(cw) + seq!['v']
        + decimal(ch) + seq!['H'] + decimal(xp) + seq!['V'] + decimal(yp)
}

/// The path of one dark module.
pub open spec fn svg_cell(qz: bool, cw: int, ch: int, x: int, y: int) -> Seq<char> {
    svg_rect(pixel(qz, x, cw) as nat, pixel(qz, y, ch) as nat, cw as nat, ch as nat)
}

fn push_svg_rect(res: &mut String, xp: usize, yp: usize, cw: usize, ch: usize)
    ensures
        final(res)@ == old(res)@ + svg_rect(xp as nat, yp as nat, cw as nat, ch as nat),
{
    push_char(res, 'M');
    push_decimal(res, xp);
    push_char(res, ' ');
    push_decimal(res, yp);
    push_char(res, 'h');
    push_decimal(res, cw);
    push_char(res, 'v');
    push_decimal(res, ch);
    push_char(res, 'H');
    push_decimal(res, xp);
    push_char(res, 'V');
    push_decimal(res, yp);
    assert(final(res)@ =~= old(res)@ + svg_rect(xp as nat, yp as nat, cw as nat, ch as nat));
}

/// The path of the dark modules among columns `0 .. hi` of row `y`.
pub open spec fn svg_row(m: Matrix, qz: bool, cw: int, ch: int, y: int, hi: int) -> Seq<char>
    decreases hi,
{
    if hi <= 0 {
        Seq::empty()
    } else {
        svg_row(m, qz, cw, ch, y, hi - 1) + if is_dark_module(m.cell(hi - 1, y)) {
            svg_cell(qz, cw, ch, hi - 1, y)
        } else {
            Seq::empty()
        }
    }
}

/// The path of the dark modules of rows `0 .. hi`.
pub open spec fn svg_rows(m: Matrix, qz: bool, cw: int, ch: int, hi: int) -> Seq<char>
    decreases hi,
{
    if hi <= 0 {
        Seq::empty()
    } else {
        svg_rows(m, qz, cw, ch, hi - 1) + svg_row(m, qz, cw, ch, hi - 1, m.size as int)
    }
}

/// Appends the path of the dark modules, row by row.
pub(crate) fn push_svg_path(res: &mut String, matrix: &Matrix, qz: bool, cw: usize, ch: usize)
    requires
        matrix.wf(),
        matrix.size <= MAX_RENDER_SIZE,
        cw <= 2 * MAX_PIXELS,
        ch <= 2 * MAX_PIXELS,
    ensures
        final(res)@ == old(res)@ + svg_rows(*matrix, qz, cw as int, ch as int, matrix.size as int),
{
    let mut y: usize = 0;
    while y < matrix.size
        invariant
            matrix.wf(),
            matrix.size <= MAX_RENDER_SIZE,
            cw <= 2 * MAX_PIXELS,
            ch <= 2 * MAX_PIXELS,
            y <= matrix.size,
            res@ == old(res)@ + svg_rows(*matrix, qz, cw as int, ch as int, y as int),
        decreases matrix.size - y,
    {
        assert((y + 4) * ch <= (MAX_RENDER_SIZE + 4) * (2 * MAX_PIXELS) && y * ch <= (y + 4) * ch)
            by (nonlinear_arith)
            requires
                y < MAX_RENDER_SIZE,
                ch <= 2 * MAX_PIXELS,
        ;
        let yp = if qz {
            (y + 4) * ch
        } else {
            y * ch
        };
        let ghost before = res@;
        let mut x: usize = 0;
        while x < matrix.size
            invariant
                matrix.wf(),
                matrix.size <= MAX_RENDER_SIZE,
                cw <= 2 * MAX_PIXELS,
                ch <= 2 * MAX_PIXELS,
                y < matrix.size,
                x <= matrix.size,
                yp == pixel(qz, y as int, ch as int),
                res@ == before + svg_row(*matrix, qz, cw as int, ch as int, y as int, x as int),
            decreases matrix.size - x,
        {
            assert((x + 4) * cw <= (MAX_RENDER_SIZE + 4) * (2 * MAX_PIXELS) && x * cw <= (x + 4)
                * cw) by (nonlinear_arith)
                requires
                    x < MAX_RENDER_SIZE,
                    cw <= 2 * MAX_PIXELS,
            ;
            let xp = if qz {
                (x + 4) * cw
            } else {
                x * cw
            };
            if matrix.is_dark(x, y) {
                push_svg_rect(res, xp, yp, cw, ch);
            }
            x = x + 1;
            assert(res@ =~= before + svg_row(*matrix, qz, cw as int, ch as int, y as int, x as int));
        }
        y = y + 1;
        assert(res@ =~= old(res)@ + svg_rows(*matrix, qz, cw as int, ch as int, y as int));
    }
}

/// Appends the end of the path and of the image.
pub(crate) fn push_svg_end(res: &mut String)
    ensures
        final(res)@ == old(res)@ + svg_end(),
{
    push_str(res, "\"/></svg>\n");
}

/// The end of the path and of the image.
pub open spec fn svg_end() -> Seq<char> {
    "\"/></svg>\n"@
}

} // verus!
