//! The module grid of a QR code.

use vstd::prelude::*;

verus! {

/// The state of one cell of the grid.
#[derive(Debug, Clone, Copy, PartialEq, Eq, Structural)]
pub enum Module {
    /// Not yet assigned.
    Unknown,
    /// Set aside for a value assigned later (the format information).
    Reserved,
    /// Part of a fixed pattern; dark if true.
    Function(bool),
    /// A data or error correction bit; dark if true.
    Data(bool),
}

/// True for cells that data placement must not touch.
pub open spec fn is_fun_module(m: Module) -> bool {
    match m {
        Module::Function(_) => true,
        Module::Reserved => true,
        _ => false,
    }
}

/// True for dark cells.
pub open spec fn is_dark_module(m: Module) -> bool {
    match m {
        Module::Function(v) => v,
        Module::Data(v) => v,
        _ => false,
    }
}

/// True when `(x, y)` lies in the rectangle with corners `(x0, y0)` and
/// `(x1, y1)`, both included.
pub open spec fn in_rect(x: int, y: int, x0: int, y0: int, x1: int, y1: int) -> bool {
    x0 <= x <= x1 && y0 <= y <= y1
}

/// True when `(x, y)` lies on the border of the `w` by `w` square whose top
/// left corner is `(x0, y0)`.
pub open spec fn on_outline(x: int, y: int, x0: int, y0: int, w: int) -> bool {
    in_rect(x, y, x0, y0, x0 + w - 1, y0 + w - 1) && (x == x0 || x == x0 + w - 1 || y == y0 || y
        == y0 + w - 1)
}

/// A square grid of modules, stored by rows: `modules[y][x]`.
#[derive(Debug, PartialEq, Eq)]
pub struct Matrix {
    /// The number of modules on each side.
    pub size: usize,
    /// The modules, row by row.
    pub modules: Vec<Vec<Module>>,
}

impl Matrix {
    /// Well formed: `size` rows of `size` modules.
    pub open spec fn wf(&self) -> bool {
        &&& self.modules@.len() == self.size
        &&& forall|y: int| 0 <= y < self.size ==> (#[trigger] self.modules@[y])@.len() == self.size
    }

    /// The module at column `x` and row `y`.
    pub open spec fn cell(&self, x: int, y: int) -> Module {
        self.modules@[y]@[x]
    }

    /// True when `(x, y)` is inside the grid.
    pub open spec fn inside(&self, x: int, y: int) -> bool {
        0 <= x < self.size && 0 <= y < self.size
    }

    /// Every cell is assigned and none is still reserved.
    pub open spec fn spec_complete(&self) -> bool {
        forall|x: int, y: int|
            self.inside(x, y) ==> #[trigger] self.cell(x, y) != Module::Unknown && self.cell(x, y)
                != Module::Reserved
    }

    /// A grid of `size` by `size` unknown modules.
    pub fn new(size: usize) -> (r: Matrix)
        ensures
            r.wf(),
            r.size == size,
            forall|x: int, y: int| r.inside(x, y) ==> #[trigger] r.cell(x, y) == Module::Unknown,
    {
        let mut modules: Vec<Vec<Module>> = Vec::new();
        let mut y: usize = 0;
        while y < size
            invariant
                y <= size,
                modules@.len() == y,
                forall|b: int| 0 <= b < y ==> (#[trigger] modules@[b])@.len() == size,
                forall|a: int, b: int|
                    0 <= b < y && 0 <= a < size ==> #[trigger] modules@[b]@[a] == Module::Unknown,
            decreases size - y,
        {
            let mut row: Vec<Module> = Vec::new();
            let mut x: usize = 0;
            while x < size
                invariant
                    x <= size,
                    row@.len() == x,
                    forall|a: int| 0 <= a < x ==> #[trigger] row@[a] == Module::Unknown,
                decreases size - x,
            {
                row.push(Module::Unknown);
                x = x + 1;
            }
            modules.push(row);
            y = y + 1;
        }
        Matrix { size, modules }
    }

    /// The module at `(x, y)`.
    pub fn get(&self, x: usize, y: usize) -> (r: Module)
        requires
            self.wf(),
            self.inside(x as int, y as int),
        ensures
            r == self.cell(x as int, y as int),
    {
        self.modules[y][x]
    }

    /// Set the module at `(x, y)`.
    pub fn set(&mut self, x: usize, y: usize, v: Module)
        requires
            old(self).wf(),
            old(self).inside(x as int, y as int),
        ensures
            final(self).wf(),
            final(self).size == old(self).size,
            forall|a: int, b: int|
                final(self).inside(a, b) ==> #[trigger] final(self).cell(a, b) == if a == x && b
                    == y {
                    v
                } else {
                    old(self).cell(a, b)
                },
    {
        self.modules[y][x] = v;
    }

    /// Set every module of the rectangle with corners `(x0, y0)` and
    /// `(x1, y1)`, both included.
    pub fn set_rect(&mut self, x0: usize, y0: usize, x1: usize, y1: usize, v: Module)
        requires
            old(self).wf(),
            x1 < old(self).size,
            y1 < old(self).size,
        ensures
            final(self).wf(),
            final(self).size == old(self).size,
            forall|a: int, b: int|
                final(self).inside(a, b) ==> #[trigger] final(self).cell(a, b) == if in_rect(
                    a,
                    b,
                    x0 as int,
                    y0 as int,
                    x1 as int,
                    y1 as int,
                ) {
                    v
                } else {
                    old(self).cell(a, b)
                },
    {
        let ghost start = *self;
        let mut a: usize = x0;
        while a <= x1
            invariant
                self.wf(),
                self.size == start.size,
                x1 < self.size,
                y1 < self.size,
                x0 <= a,
                a <= x1 + 1 || a == x0,
                forall|p: int, q: int|
                    self.inside(p, q) ==> #[trigger] self.cell(p, q) == if in_rect(
                        p,
                        q,
                        x0 as int,
                        y0 as int,
                        a - 1,
                        y1 as int,
                    ) {
                        v
                    } else {
                        start.cell(p, q)
                    },
            decreases x1 + 1 - a,
        {
            let ghost mid = *self;
            let mut b: usize = y0;
            while b <= y1
                invariant
                    self.wf(),
                    self.size == start.size,
                    x1 < self.size,
                    y1 < self.size,
                    x0 <= a <= x1,
                    y0 <= b,
                    b <= y1 + 1 || b == y0,
                    forall|p: int, q: int|
                        self.inside(p, q) ==> #[trigger] self.cell(p, q) == if p == a && y0 <= q
                            < b {
                            v
                        } else {
                            mid.cell(p, q)
                        },
                decreases y1 + 1 - b,
            {
                self.set(a, b, v);
                b = b + 1;
            }
            a = a + 1;
        }
    }

    /// Set every module of the `w` by `w` square whose top left corner is
    /// `(x, y)`.
    pub fn set_square(&mut self, x: usize, y: usize, w: usize, v: Module)
        requires
            old(self).wf(),
            w >= 1,
            x + w <= old(self).size,
            y + w <= old(self).size,
        ensures
            final(self).wf(),
            final(self).size == old(self).size,
            forall|a: int, b: int|
                final(self).inside(a, b) ==> #[trigger] final(self).cell(a, b) == if in_rect(
                    a,
                    b,
                    x as int,
                    y as int,
                    x + w - 1,
                    y + w - 1,
                ) {
                    v
                } else {
                    old(self).cell(a, b)
                },
    {
        self.set_rect(x, y, x + w - 1, y + w - 1, v);
    }

    /// Set the border modules of the `w` by `w` square whose top left corner
    /// is `(x, y)`.
    pub fn set_square_outline(&mut self, x: usize, y: usize, w: usize, v: Module)
        requires
            old(self).wf(),
            w >= 1,
            x + w <= old(self).size,
            y + w <= old(self).size,
        ensures
            final(self).wf(),
            final(self).size == old(self).size,
            forall|a: int, b: int|
                final(self).inside(a, b) ==> #[trigger] final(self).cell(a, b) == if on_outline(
                    a,
                    b,
                    x as int,
                    y as int,
                    w as int,
                ) {
                    v
                } else {
                    old(self).cell(a, b)
                },
    {
        let x1 = x + w - 1;
        let y1 = y + w - 1;
        self.set_rect(x, y, x1, y, v);
        self.set_rect(x, y1, x1, y1, v);
        self.set_rect(x, y, x, y1, v);
        self.set_rect(x1, y, x1, y1, v);
    }

    /// Set a function module.
    pub fn set_fun(&mut self, x: usize, y: usize, v: bool)
        requires
            old(self).wf(),
            old(self).inside(x as int, y as int),
        ensures
            final(self).wf(),
            final(self).size == old(self).size,
            forall|a: int, b: int|
                final(self).inside(a, b) ==> #[trigger] final(self).cell(a, b) == if a == x && b
                    == y {
                    Module::Function(v)
                } else {
                    old(self).cell(a, b)
                },
    {
        self.set(x, y, Module::Function(v));
    }

    /// Set a data module.
    pub fn set_data(&mut self, x: usize, y: usize, v: bool)
        requires
            old(self).wf(),
            old(self).inside(x as int, y as int),
        ensures
            final(self).wf(),
            final(self).size == old(self).size,
            forall|a: int, b: int|
                final(self).inside(a, b) ==> #[trigger] final(self).cell(a, b) == if a == x && b
                    == y {
                    Module::Data(v)
                } else {
                    old(self).cell(a, b)
                },
    {
        self.set(x, y, Module::Data(v));
    }

    /// Is `(x, y)` a function module, or reserved for one?
    pub fn is_fun(&self, x: usize, y: usize) -> (r: bool)
        requires
            self.wf(),
            self.inside(x as int, y as int),
        ensures
            r == is_fun_module(self.cell(x as int, y as int)),
    {
        match self.get(x, y) {
            Module::Function(_) => true,
            Module::Reserved => true,
            _ => false,
        }
    }

    /// Is `(x, y)` a data module?
    pub fn is_data(&self, x: usize, y: usize) -> (r: bool)
        requires
            self.wf(),
            self.inside(x as int, y as int),
        ensures
            r == (self.cell(x as int, y as int) is Data),
    {
        match self.get(x, y) {
            Module::Data(_) => true,
            _ => false,
        }
    }

    /// Is `(x, y)` dark?
    pub fn is_dark(&self, x: usize, y: usize) -> (r: bool)
        requires
            self.wf(),
            self.inside(x as int, y as int),
        ensures
            r == is_dark_module(self.cell(x as int, y as int)),
    {
        match self.get(x, y) {
            Module::Function(v) => v,
            Module::Data(v) => v,
            _ => false,
        }
    }

    /// Is any module of the rectangle with corners `(x0, y0)` and `(x1, y1)`
    /// assigned or reserved?
    pub fn any_in_rect(&self, x0: usize, y0: usize, x1: usize, y1: usize) -> (r: bool)
        requires
            self.wf(),
            x1 < self.size,
            y1 < self.size,
        ensures
            r == exists|a: int, b: int|
                in_rect(a, b, x0 as int, y0 as int, x1 as int, y1 as int) && #[trigger] self.cell(
                    a,
                    b,
                ) != Module::Unknown,
    {
        let mut a: usize = x0;
        while a <= x1
            invariant
                self.wf(),
                x1 < self.size,
                y1 < self.size,
                x0 <= a,
                a <= x1 + 1 || a == x0,
                forall|p: int, q: int|
                    in_rect(p, q, x0 as int, y0 as int, a - 1, y1 as int) ==> #[trigger] self.cell(
                        p,
                        q,
                    ) == Module::Unknown,
            decreases x1 + 1 - a,
        {
            let mut b: usize = y0;
            while b <= y1
                invariant
                    self.wf(),
                    x1 < self.size,
                    y1 < self.size,
                    x0 <= a <= x1,
                    y0 <= b,
                    b <= y1 + 1 || b == y0,
                    forall|p: int, q: int|
                        in_rect(p, q, x0 as int, y0 as int, a - 1, y1 as int) ==> #[trigger] self.cell(
                            p,
                            q,
                        ) == Module::Unknown,
                    forall|q: int| y0 <= q < b ==> #[trigger] self.cell(a as int, q) == Module::Unknown,
                decreases y1 + 1 - b,
            {
                if self.get(a, b) != Module::Unknown {
                    return true;
                }
                b = b + 1;
            }
            a = a + 1;
        }
        false
    }

    /// Is any module of the square from `(x, y)` to `(x + w, y + w)`, both
    /// included, assigned or reserved?
    pub fn any_in_square(&self, x: usize, y: usize, w: usize) -> (r: bool)
        requires
            self.wf(),
            x + w < self.size,
            y + w < self.size,
        ensures
            r == exists|a: int, b: int|
                in_rect(a, b, x as int, y as int, x + w, y + w) && #[trigger] self.cell(a, b)
                    != Module::Unknown,
    {
        self.any_in_rect(x, y, x + w, y + w)
    }

    /// Is every module assigned, with none left reserved?
    pub fn complete(&self) -> (r: bool)
        requires
            self.wf(),
        ensures
            r == self.spec_complete(),
    {
        let mut y: usize = 0;
        while y < self.size
            invariant
                self.wf(),
                y <= self.size,
                forall|p: int, q: int|
                    0 <= p < self.size && 0 <= q < y ==> #[trigger] self.cell(p, q) != Module::Unknown
                        && self.cell(p, q) != Module::Reserved,
            decreases self.size - y,
        {
            let mut x: usize = 0;
            while x < self.size
                invariant
                    self.wf(),
                    y < self.size,
                    x <= self.size,
                    forall|p: int, q: int|
                        0 <= p < self.size && 0 <= q < y ==> #[trigger] self.cell(p, q)
                            != Module::Unknown && self.cell(p, q) != Module::Reserved,
                    forall|p: int|
                        0 <= p < x ==> #[trigger] self.cell(p, y as int) != Module::Unknown
                            && self.cell(p, y as int) != Module::Reserved,
                decreases self.size - x,
            {
                let m = self.get(x, y);
                if m == Module::Unknown || m == Module::Reserved {
                    return false;
                }
                x = x + 1;
            }
            y = y + 1;
        }
        true
    }
}

} // verus!
