//! Renders a QR code as an SVG image.

use crate::matrix::Matrix;
use crate::qr::Qr;
use crate::rendercommons::{
    ceil_div, hex_byte, push_svg_end, push_svg_path, svg_end, svg_rows, Color, MAX_PIXELS,
    MAX_RENDER_SIZE,
};
use crate::text::{decimal, push_decimal, push_str};
use vstd::prelude::*;

verus! {

/// A renderer of QR codes as SVG images.
pub struct SvgRenderer {
    light: Color,
    dark: Color,
    w: usize,
    h: usize,
    qz: bool,
}

/// The text of a color, `#rrggbb`.
pub open spec fn color_text(c: Color) -> Seq<char> {
    seq!['#'] + hex_byte(c.r) + hex_byte(c.g) + hex_byte(c.b)
}

/// The SVG header up to the path data.
pub open spec fn svg_header(w: nat, h: nat, light: Color, dark: Color) -> Seq<char> {
    "<?xml version=\"1.0\" standalone=\"yes\"?>\n        <svg xmlns=\"http://www.w3.org/2000/svg\" version=\"1.1\"\n            viewBox=\"0 0 "@
        + decimal(w) + " "@ + decimal(h)
        + "\" shape-rendering=\"crispEdges\">\n        <rect x=\"0\" y=\"0\" width=\""@ + decimal(w)
        + "\" height=\""@ + decimal(h) + "\" fill=\""@ + color_text(light)
        + "\"/>\n        <path fill=\""@ + color_text(dark) + "\" d=\""@
}

impl SvgRenderer {
    /// The color of light modules and of the quiet zone.
    pub closed spec fn light_color(&self) -> Color {
        self.light
    }

    /// The color of dark modules.
    pub closed spec fn dark_color(&self) -> Color {
        self.dark
    }

    /// The width asked for, in pixels.
    pub closed spec fn width(&self) -> nat {
        self.w as nat
    }

    /// The height asked for, in pixels.
    pub closed spec fn height(&self) -> nat {
        self.h as nat
    }

    /// Is a quiet zone drawn?
    pub closed spec fn quiet(&self) -> bool {
        self.qz
    }

    /// Create a renderer: white and black, 200 by 200 pixels, with a quiet
    /// zone.
    pub fn new() -> (r: Self)
        ensures
            r.light_color() == Color::new_spec(255, 255, 255),
            r.dark_color() == Color::new_spec(0, 0, 0),
            r.width() == 200,
            r.height() == 200,
            r.quiet(),
    {
        Self {
            light: Color::new(255, 255, 255),
            dark: Color::new(0, 0, 0),
            w: 200,
            h: 200,
            qz: true,
        }
    }

    /// Set the light module color, also that of the quiet zone.
    pub fn light_module(self, v: Color) -> (r: Self)
        ensures
            r.light_color() == v,
            r.dark_color() == self.dark_color(),
            r.width() == self.width(),
            r.height() == self.height(),
            r.quiet() == self.quiet(),
    {
        let mut s = self;
        s.light = v;
        s
    }

    /// Set the dark module color.
    pub fn dark_module(self, v: Color) -> (r: Self)
        ensures
            r.dark_color() == v,
            r.light_color() == self.light_color(),
            r.width() == self.width(),
            r.height() == self.height(),
            r.quiet() == self.quiet(),
    {
        let mut s = self;
        s.dark = v;
        s
    }

    /// Set whether a quiet zone is drawn.
    pub fn quiet_zone(self, v: bool) -> (r: Self)
        ensures
            r.quiet() == v,
            r.light_color() == self.light_color(),
            r.dark_color() == self.dark_color(),
            r.width() == self.width(),
            r.height() == self.height(),
    {
        let mut s = self;
        s.qz = v;
        s
    }

    /// Set the dimensions of the image in pixels, quiet zone included. They
    /// are minimums: the image grows to a whole number of pixels per module.
    pub fn dimensions(self, w: usize, h: usize) -> (r: Self)
        ensures
            r.width() == w,
            r.height() == h,
            r.light_color() == self.light_color(),
            r.dark_color() == self.dark_color(),
            r.quiet() == self.quiet(),
    {
        let mut s = self;
        s.w = w;
        s.h = h;
        s
    }

    /// Render a QR code.
    pub fn render(&self, qr: &Qr) -> (r: String)
        requires
            qr.matrix.wf(),
            qr.matrix.size <= MAX_RENDER_SIZE,
            self.quiet() || qr.matrix.size > 0,
            self.width() <= MAX_PIXELS,
            self.height() <= MAX_PIXELS,
        ensures
            r@ == svg_image(*self, qr.matrix),
    {
        self.render_matrix(&qr.matrix)
    }

    /// Render a grid.
    pub fn render_matrix(&self, matrix: &Matrix) -> (r: String)
        requires
            matrix.wf(),
            matrix.size <= MAX_RENDER_SIZE,
            self.quiet() || matrix.size > 0,
            self.width() <= MAX_PIXELS,
            self.height() <= MAX_PIXELS,
        ensures
            r@ == svg_image(*self, *matrix),
    {
        let cell_count = if self.qz {
            matrix.size + 8
        } else {
            matrix.size
        };
        // If not divided evenly, round up: the dimensions are minimums.
        let cell_w = (self.w + cell_count - 1) / cell_count;
        let cell_h = (self.h + cell_count - 1) / cell_count;
        proof {
            assert(cell_w * cell_count <= self.w + cell_count) by (nonlinear_arith)
                requires
                    cell_w as int == (self.w + cell_count - 1) as int / cell_count as int,
                    cell_count > 0,
            ;
            assert(cell_h * cell_count <= self.h + cell_count) by (nonlinear_arith)
                requires
                    cell_h as int == (self.h + cell_count - 1) as int / cell_count as int,
                    cell_count > 0,
            ;
            assert(cell_w <= self.w + 1) by (nonlinear_arith)
                requires
                    cell_w as int == (self.w + cell_count - 1) as int / cell_count as int,
                    cell_count > 0,
            ;
            assert(cell_h <= self.h + 1) by (nonlinear_arith)
                requires
                    cell_h as int == (self.h + cell_count - 1) as int / cell_count as int,
                    cell_count > 0,
            ;
        }
        // The image may grow, so take the dimensions again.
        let w = cell_w * cell_count;
        let h = cell_h * cell_count;

        let mut res = String::new();
        push_str(
            &mut res,
            "<?xml version=\"1.0\" standalone=\"yes\"?>\n        <svg xmlns=\"http://www.w3.org/2000/svg\" version=\"1.1\"\n            viewBox=\"0 0 ",
        );
        push_decimal(&mut res, w);
        push_str(&mut res, " ");
        push_decimal(&mut res, h);
        push_str(
            &mut res,
            "\" shape-rendering=\"crispEdges\">\n        <rect x=\"0\" y=\"0\" width=\"",
        );
        push_decimal(&mut res, w);
        push_str(&mut res, "\" height=\"");
        push_decimal(&mut res, h);
        push_str(&mut res, "\" fill=\"");
        let light = self.light.to_hex_str();
        push_str(&mut res, light.as_str());
        push_str(&mut res, "\"/>\n        <path fill=\"");
        let dark = self.dark.to_hex_str();
        push_str(&mut res, dark.as_str());
        push_str(&mut res, "\" d=\"");
        proof {
            assert(res@ =~= svg_header(w as nat, h as nat, self.light, self.dark));
        }
        push_svg_path(&mut res, matrix, self.qz, cell_w, cell_h);
        push_svg_end(&mut res);
        res
    }
}

/// The number of modules across the image, quiet zone included.
pub open spec fn cell_count(qz: bool, size: int) -> int {
    if qz {
        size + 8
    } else {
        size
    }
}

/// The SVG image of a grid.
pub open spec fn svg_image(r: SvgRenderer, m: Matrix) -> Seq<char> {
    let n = cell_count(r.quiet(), m.size as int);
    let cw = ceil_div(r.width() as int, n);
    let ch = ceil_div(r.height() as int, n);
    svg_header((cw * n) as nat, (ch * n) as nat, r.light_color(), r.dark_color()) + svg_rows(
        m,
        r.quiet(),
        cw,
        ch,
        m.size as int,
    ) + svg_end()
}

} // verus!
