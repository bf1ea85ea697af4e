//! Renders a QR code as an SVG fragment sized relative to its container.

use crate::matrix::Matrix;
use crate::qr::Qr;
use crate::rendercommons::{
    ceil_div, push_svg_end, push_svg_path, svg_end, svg_rows, MAX_PIXELS, MAX_RENDER_SIZE,
};
use crate::rendersvg::cell_count;
use crate::text::{decimal, push_decimal, push_str};
use vstd::prelude::*;

verus! {

/// A renderer of QR codes as SVG, for embedding in a larger document.
pub struct SvgDodrioRenderer {
    w: usize,
    h: usize,
    qz: bool,
}

/// The header of the embeddable image up to the path data.
pub open spec fn dodrio_header(w: nat, h: nat) -> Seq<char> {
    "<svg x=\"10%\" y=\"22%\" height=\"35%\" width=\"80%\" viewBox=\"0 0 "@ + decimal(w) + " "@
        + decimal(h)
        + "\"\n            shape-rendering=\"crispEdges\">\n         <rect x=\"0\" y=\"0\" width=\"100%\" height=\"100%\" fill=\"#ffffff\" />\n         <path fill=\"#000000\" d=\" "@
}

impl SvgDodrioRenderer {
    /// The width in pixels.
    pub closed spec fn width(&self) -> nat {
        self.w as nat
    }

    /// The height in pixels.
    pub closed spec fn height(&self) -> nat {
        self.h as nat
    }

    /// Is a quiet zone drawn?
    pub closed spec fn quiet(&self) -> bool {
        self.qz
    }

    /// Create a renderer for an image of `w` by `h` pixels, with a quiet
    /// zone.
    pub fn new(w: usize, h: usize) -> (r: Self)
        ensures
            r.width() == w,
            r.height() == h,
            r.quiet(),
    {
        Self { w, h, qz: true }
    }

    /// Render a QR code.
    pub fn render(&self, qr: &Qr) -> (r: String)
        requires
            qr.matrix.wf(),
            qr.matrix.size <= MAX_RENDER_SIZE,
            self.quiet() || qr.matrix.size > 0,
            self.width() <= MAX_PIXELS,
            self.height() <= MAX_PIXELS,
        ensures
            r@ == dodrio_image(*self, qr.matrix),
    {
        self.render_matrix(&qr.matrix)
    }

    /// Render a grid.
    pub fn render_matrix(&self, matrix: &Matrix) -> (r: String)
        requires
            matrix.wf(),
            matrix.size <= MAX_RENDER_SIZE,
            self.quiet() || matrix.size > 0,
            self.width() <= MAX_PIXELS,
            self.height() <= MAX_PIXELS,
        ensures
            r@ == dodrio_image(*self, *matrix),
    {
        let cell_count = if self.qz {
            matrix.size + 8
        } else {
            matrix.size
        };
        // If not divided evenly, round up: the dimensions are minimums.
        let cell_w = (self.w + cell_count - 1) / cell_count;
        let cell_h = (self.h + cell_count - 1) / cell_count;
        proof {
            assert(cell_w <= self.w + 1) by (nonlinear_arith)
                requires
                    cell_w as int == (self.w + cell_count - 1) as int / cell_count as int,
                    cell_count > 0,
            ;
            assert(cell_h <= self.h + 1) by (nonlinear_arith)
                requires
                    cell_h as int == (self.h + cell_count - 1) as int / cell_count as int,
                    cell_count > 0,
            ;
        }
        let mut res = String::new();
        push_str(&mut res, "<svg x=\"10%\" y=\"22%\" height=\"35%\" width=\"80%\" viewBox=\"0 0 ");
        push_decimal(&mut res, self.w);
        push_str(&mut res, " ");
        push_decimal(&mut res, self.h);
        push_str(
            &mut res,
            "\"\n            shape-rendering=\"crispEdges\">\n         <rect x=\"0\" y=\"0\" width=\"100%\" height=\"100%\" fill=\"#ffffff\" />\n         <path fill=\"#000000\" d=\" ",
        );
        proof {
            assert(res@ =~= dodrio_header(self.w as nat, self.h as nat));
        }
        push_svg_path(&mut res, matrix, self.qz, cell_w, cell_h);
        push_svg_end(&mut res);
        res
    }
}

/// The embeddable SVG image of a grid.
pub open spec fn dodrio_image(r: SvgDodrioRenderer, m: Matrix) -> Seq<char> {
    let n = cell_count(r.quiet(), m.size as int);
    let cw = ceil_div(r.width() as int, n);
    let ch = ceil_div(r.height() as int, n);
    dodrio_header(r.width(), r.height()) + svg_rows(m, r.quiet(), cw, ch, m.size as int)
        + svg_end()
}

} // verus!
