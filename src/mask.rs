//! Data masks: the eight standard patterns, the four penalty rules, and the
//! choice of the best mask.

use crate::matrix::{is_dark_module, Matrix, Module};
use vstd::prelude::*;

verus! {

/// A mask pattern, 0 to 7.
#[derive(Debug, Clone, Copy, PartialEq, Eq, Structural)]
pub struct Mask(pub usize);

/// The largest grid the penalty rules are computed for.
pub const MAX_EVAL_SIZE: usize = 200;

/// Whether mask `m` flips the data module at column `x`, row `y`.
pub open spec fn mask_bit(m: int, x: int, y: int) -> bool {
    if m == 0 {
        (y + x) % 2 == 0
    } else if m == 1 {
        y % 2 == 0
    } else if m == 2 {
        x % 3 == 0
    } else if m == 3 {
        (y + x) % 3 == 0
    } else if m == 4 {
        (y / 2 + x / 3) % 2 == 0
    } else if m == 5 {
        (y * x) % 2 + (y * x) % 3 == 0
    } else if m == 6 {
        ((y * x) % 2 + (y * x) % 3) % 2 == 0
    } else {
        ((y + x) % 2 + (y * x) % 3) % 2 == 0
    }
}

/// A module with mask `m` applied: data modules are flipped where the pattern
/// says so, all others are kept.
pub open spec fn masked_module(c: Module, m: int, x: int, y: int) -> Module {
    match c {
        Module::Data(v) => Module::Data(v != mask_bit(m, x, y)),
        _ => c,
    }
}

/// The cells of a grid as a function, `Unknown` outside it.
pub open spec fn cells_of(mat: Matrix) -> spec_fn(int, int) -> Module {
    |x: int, y: int|
        if mat.inside(x, y) {
            mat.cell(x, y)
        } else {
            Module::Unknown
        }
}

/// The dark and light cells of an `n` by `n` grid with mask `m` applied, by
/// rows.
pub open spec fn dark_grid(cells: spec_fn(int, int) -> Module, n: nat, m: int) -> Seq<Seq<bool>> {
    Seq::new(n, |y: int| Seq::new(n, |x: int| is_dark_module(masked_module(cells(x, y), m, x, y))))
}

/// Row `i` of a square grid, or column `i` if `vertical`.
pub open spec fn line(g: Seq<Seq<bool>>, vertical: bool, i: int) -> Seq<bool> {
    if vertical {
        Seq::new(g.len(), |k: int| g[k][i])
    } else {
        g[i]
    }
}

/// The score of position `i` of a line under the run rule: the five cells
/// ending at `i` have one color, which scores 3 where such a run starts and
/// 1 for each further cell, so a run of `n >= 5` cells scores `n - 2`.
pub open spec fn run_term(a: Seq<bool>, i: int) -> int {
    if a[i - 4] == a[i] && a[i - 3] == a[i] && a[i - 2] == a[i] && a[i - 1] == a[i] {
        if i == 4 || a[i - 5] != a[i] {
            3
        } else {
            1
        }
    } else {
        0
    }
}

/// The run scores of positions `4 .. hi` of a line.
pub open spec fn run_sum(a: Seq<bool>, hi: int) -> int
    decreases hi,
{
    if hi <= 4 {
        0
    } else {
        run_sum(a, hi - 1) + run_term(a, hi - 1)
    }
}

/// The run rule on one line.
pub open spec fn run_penalty(a: Seq<bool>) -> int {
    run_sum(a, a.len() as int)
}

/// The run rule on rows (or columns) `0 .. hi`.
pub open spec fn runs_lines(g: Seq<Seq<bool>>, vertical: bool, hi: int) -> int
    decreases hi,
{
    if hi <= 0 {
        0
    } else {
        runs_lines(g, vertical, hi - 1) + run_penalty(line(g, vertical, hi - 1))
    }
}

/// The first penalty rule: runs of five or more cells of one color, in rows
/// and in columns.
pub open spec fn penalty_runs(g: Seq<Seq<bool>>) -> int {
    runs_lines(g, false, g.len() as int) + runs_lines(g, true, g.len() as int)
}

/// The second penalty rule at one position: 3 where the 2 by 2 block whose
/// top left cell is `(x, y)` has one color.
pub open spec fn block_term(g: Seq<Seq<bool>>, x: int, y: int) -> int {
    if g[y][x] == g[y][x + 1] && g[y][x] == g[y + 1][x] && g[y][x] == g[y + 1][x + 1] {
        3
    } else {
        0
    }
}

/// Block scores of positions `0 .. hi` of row `y`.
pub open spec fn block_row(g: Seq<Seq<bool>>, y: int, hi: int) -> int
    decreases hi,
{
    if hi <= 0 {
        0
    } else {
        block_row(g, y, hi - 1) + block_term(g, hi - 1, y)
    }
}

/// Block scores of rows `0 .. hi`.
pub open spec fn block_rows(g: Seq<Seq<bool>>, hi: int) -> int
    decreases hi,
{
    if hi <= 0 {
        0
    } else {
        block_rows(g, hi - 1) + block_row(g, hi - 1, g.len() - 1)
    }
}

/// The second penalty rule: 2 by 2 blocks of one color.
pub open spec fn penalty_blocks(g: Seq<Seq<bool>>) -> int {
    block_rows(g, g.len() - 1)
}

/// The finder-like pattern dark-light-dark-dark-dark-light-dark followed by
/// four light cells.
pub open spec fn finder_like() -> Seq<bool> {
    seq![true, false, true, true, true, false, true, false, false, false, false]
}

/// True when the 11 cells of `a` from `i` match `p`.
pub open spec fn matches_at(a: Seq<bool>, i: int, p: Seq<bool>) -> bool {
    forall|k: int| 0 <= k < 11 ==> #[trigger] a[i + k] == p[k]
}

/// The third penalty rule at position `i` of a line: 40 where the pattern or
/// its mirror image starts.
pub open spec fn finder_term(a: Seq<bool>, i: int) -> int {
    if matches_at(a, i, finder_like()) || matches_at(a, i, finder_like().reverse()) {
        40
    } else {
        0
    }
}

/// Finder scores of positions `0 .. hi` of a line.
pub open spec fn finder_sum(a: Seq<bool>, hi: int) -> int
    decreases hi,
{
    if hi <= 0 {
        0
    } else {
        finder_sum(a, hi - 1) + finder_term(a, hi - 1)
    }
}

/// The third penalty rule on one line.
pub open spec fn finder_penalty(a: Seq<bool>) -> int {
    finder_sum(a, a.len() - 10)
}

/// The third penalty rule on rows (or columns) `0 .. hi`.
pub open spec fn finders_lines(g: Seq<Seq<bool>>, vertical: bool, hi: int) -> int
    decreases hi,
{
    if hi <= 0 {
        0
    } else {
        finders_lines(g, vertical, hi - 1) + finder_penalty(line(g, vertical, hi - 1))
    }
}

/// The third penalty rule: finder-like patterns in rows and columns.
pub open spec fn penalty_finders(g: Seq<Seq<bool>>) -> int {
    finders_lines(g, false, g.len() as int) + finders_lines(g, true, g.len() as int)
}

/// The number of dark cells among positions `0 .. hi` of a line.
pub open spec fn dark_in_line(a: Seq<bool>, hi: int) -> int
    decreases hi,
{
    if hi <= 0 {
        0
    } else {
        dark_in_line(a, hi - 1) + if a[hi - 1] {
            1int
        } else {
            0int
        }
    }
}

/// The number of dark cells in rows `0 .. hi`.
pub open spec fn dark_rows(g: Seq<Seq<bool>>, hi: int) -> int
    decreases hi,
{
    if hi <= 0 {
        0
    } else {
        dark_rows(g, hi - 1) + dark_in_line(g[hi - 1], g.len() as int)
    }
}

/// The distance from 50 of a percentage, in steps of five.
pub open spec fn steps_from_half(p: int) -> int {
    if p >= 50 {
        (p - 50) / 5
    } else {
        (50 - p) / 5
    }
}

/// The fourth penalty rule: 10 for each five percent by which the share of
/// dark cells, rounded to the nearer multiple of five either side, is away
/// from one half.
pub open spec fn balance_penalty(dark: int, total: int) -> int {
    let percent = dark * 100 / total;
    let prev = percent - percent % 5;
    let next = prev + 5;
    let a = steps_from_half(prev);
    let b = steps_from_half(next);
    10 * if a < b {
        a
    } else {
        b
    }
}

/// The total penalty of a grid.
#[verifier::opaque]
pub open spec fn penalty(g: Seq<Seq<bool>>) -> int {
    penalty_runs(g) + penalty_blocks(g) + penalty_finders(g) + balance_penalty(
        dark_rows(g, g.len() as int),
        (g.len() * g.len()) as int,
    )
}

/// The penalty of mask `m` on an `n` by `n` grid.
pub open spec fn mask_score(cells: spec_fn(int, int) -> Module, n: nat, m: int) -> int {
    penalty(dark_grid(cells, n, m))
}

/// The mask of lowest penalty among masks `0 .. k`, the lowest one on ties.
#[verifier::opaque]
pub open spec fn best_mask(cells: spec_fn(int, int) -> Module, n: nat, k: int) -> int
    decreases k,
{
    if k <= 1 {
        0
    } else {
        let b = best_mask(cells, n, k - 1);
        if mask_score(cells, n, k - 1) < mask_score(cells, n, b) {
            k - 1
        } else {
            b
        }
    }
}

/// A square grid of dark and light cells.
pub open spec fn square(g: Seq<Seq<bool>>, n: int) -> bool {
    &&& g.len() == n
    &&& forall|y: int| 0 <= y < n ==> (#[trigger] g[y]).len() == n
}

/// The views of the rows of a grid of cells.
pub open spec fn grid_view(g: Seq<Vec<bool>>) -> Seq<Seq<bool>> {
    g.map_values(|r: Vec<bool>| r@)
}

/// The mask chosen among masks `0 .. k` has the lowest penalty, and every
/// mask of lower number has a higher penalty.
pub proof fn lemma_best_mask(cells: spec_fn(int, int) -> Module, n: nat, k: int)
    requires
        k >= 1,
    ensures
        0 <= best_mask(cells, n, k) < k,
        forall|m: int|
            0 <= m < k ==> mask_score(cells, n, best_mask(cells, n, k)) <= #[trigger] mask_score(
                cells,
                n,
                m,
            ),
        forall|m: int|
            0 <= m < best_mask(cells, n, k) ==> mask_score(cells, n, best_mask(cells, n, k))
                < #[trigger] mask_score(cells, n, m),
    decreases k,
{
    reveal(best_mask);
    if k > 1 {
        lemma_best_mask(cells, n, k - 1);
    }
}

/// Whether mask `m` flips the data module at `(x, y)`.
pub fn mask_fn(m: usize, x: usize, y: usize) -> (r: bool)
    requires
        m < 8,
        x < MAX_EVAL_SIZE,
        y < MAX_EVAL_SIZE,
    ensures
        r == mask_bit(m as int, x as int, y as int),
{
    assert(y * x < MAX_EVAL_SIZE * MAX_EVAL_SIZE) by (nonlinear_arith)
        requires
            x < MAX_EVAL_SIZE,
            y < MAX_EVAL_SIZE,
    ;
    let p = y * x;
    match m {
        0 => (y + x) % 2 == 0,
        1 => y % 2 == 0,
        2 => x % 3 == 0,
        3 => (y + x) % 3 == 0,
        4 => (y / 2 + x / 3) % 2 == 0,
        5 => p % 2 + p % 3 == 0,
        6 => (p % 2 + p % 3) % 2 == 0,
        _ => ((y + x) % 2 + p % 3) % 2 == 0,
    }
}

/// Apply a mask to the data modules of a grid.
pub fn apply_mask(mask: Mask, matrix: &mut Matrix)
    requires
        old(matrix).wf(),
        old(matrix).size <= MAX_EVAL_SIZE,
        mask.0 < 8,
    ensures
        final(matrix).wf(),
        final(matrix).size == old(matrix).size,
        forall|x: int, y: int|
            final(matrix).inside(x, y) ==> #[trigger] final(matrix).cell(x, y) == masked_module(
                old(matrix).cell(x, y),
                mask.0 as int,
                x,
                y,
            ),
{
    let ghost start = *matrix;
    let n = matrix.size;
    let mut y: usize = 0;
    while y < n
        invariant
            matrix.wf(),
            n == matrix.size == start.size,
            n <= MAX_EVAL_SIZE,
            mask.0 < 8,
            y <= n,
            forall|a: int, b: int|
                matrix.inside(a, b) ==> #[trigger] matrix.cell(a, b) == if b < y {
                    masked_module(start.cell(a, b), mask.0 as int, a, b)
                } else {
                    start.cell(a, b)
                },
        decreases n - y,
    {
        let mut x: usize = 0;
        while x < n
            invariant
                matrix.wf(),
                n == matrix.size == start.size,
                n <= MAX_EVAL_SIZE,
                mask.0 < 8,
                y < n,
                x <= n,
                forall|a: int, b: int|
                    matrix.inside(a, b) ==> #[trigger] matrix.cell(a, b) == if b < y || (b == y
                        && a < x) {
                        masked_module(start.cell(a, b), mask.0 as int, a, b)
                    } else {
                        start.cell(a, b)
                    },
            decreases n - x,
        {
            match matrix.get(x, y) {
                Module::Data(v) => {
                    let f = mask_fn(mask.0, x, y);
                    matrix.set_data(x, y, v != f);
                },
                _ => {},
            }
            x = x + 1;
        }
        y = y + 1;
    }
}

/// The dark and light cells of a grid with mask `m` applied.
pub fn masked_darkness(matrix: &Matrix, m: usize) -> (r: Vec<Vec<bool>>)
    requires
        matrix.wf(),
        matrix.size <= MAX_EVAL_SIZE,
        m < 8,
    ensures
        grid_view(r@) == dark_grid(cells_of(*matrix), matrix.size as nat, m as int),
        square(grid_view(r@), matrix.size as int),
{
    let n = matrix.size;
    let mut g: Vec<Vec<bool>> = Vec::new();
    let mut y: usize = 0;
    while y < n
        invariant
            matrix.wf(),
            n == matrix.size <= MAX_EVAL_SIZE,
            m < 8,
            y <= n,
            g@.len() == y,
            forall|b: int| 0 <= b < y ==> (#[trigger] g@[b])@ == dark_grid(cells_of(*matrix), n as nat, m as int)[b],
        decreases n - y,
    {
        let mut row: Vec<bool> = Vec::new();
        let mut x: usize = 0;
        while x < n
            invariant
                matrix.wf(),
                n == matrix.size <= MAX_EVAL_SIZE,
                m < 8,
                y < n,
                x <= n,
                row@ == dark_grid(cells_of(*matrix), n as nat, m as int)[y as int].subrange(0, x as int),
            decreases n - x,
        {
            let c = match matrix.get(x, y) {
                Module::Data(v) => v != mask_fn(m, x, y),
                Module::Function(v) => v,
                _ => false,
            };
            row.push(c);
            x = x + 1;
            assert(row@ =~= dark_grid(cells_of(*matrix), n as nat, m as int)[y as int].subrange(0, x as int));
        }
        assert(row@ =~= dark_grid(cells_of(*matrix), n as nat, m as int)[y as int]);
        g.push(row);
        y = y + 1;
    }
    assert(grid_view(g@) =~= dark_grid(cells_of(*matrix), n as nat, m as int));
    g
}

/// The cell at position `k` of row `i`, or of column `i` if `vertical`.
fn cell_at(g: &Vec<Vec<bool>>, vertical: bool, i: usize, k: usize) -> (r: bool)
    requires
        square(grid_view(g@), g@.len() as int),
        i < g@.len(),
        k < g@.len(),
    ensures
        r == line(grid_view(g@), vertical, i as int)[k as int],
{
    proof {
        assert(grid_view(g@)[k as int] == g@[k as int]@);
        assert(grid_view(g@)[i as int] == g@[i as int]@);
    }
    if vertical {
        g[k][i]
    } else {
        g[i][k]
    }
}

/// The run rule on one row, or column if `vertical`.
fn line_runs(g: &Vec<Vec<bool>>, vertical: bool, i: usize) -> (r: u64)
    requires
        square(grid_view(g@), g@.len() as int),
        g@.len() <= MAX_EVAL_SIZE,
        i < g@.len(),
    ensures
        r == run_penalty(line(grid_view(g@), vertical, i as int)),
        r <= 600,
{
    let n = g.len();
    let ghost a = line(grid_view(g@), vertical, i as int);
    let mut acc: u64 = 0;
    let mut k: usize = 4;
    while k < n
        invariant
            square(grid_view(g@), g@.len() as int),
            n == g@.len() <= MAX_EVAL_SIZE,
            i < n,
            a == line(grid_view(g@), vertical, i as int),
            a.len() == n,
            4 <= k,
            k <= n || k == 4,
            acc == run_sum(a, k as int),
            acc <= 3 * k,
        decreases n - k,
    {
        let c = cell_at(g, vertical, i, k);
        if cell_at(g, vertical, i, k - 4) == c && cell_at(g, vertical, i, k - 3) == c && cell_at(
            g,
            vertical,
            i,
            k - 2,
        ) == c && cell_at(g, vertical, i, k - 1) == c {
            if k == 4 || cell_at(g, vertical, i, k - 5) != c {
                acc = acc + 3;
            } else {
                acc = acc + 1;
            }
        }
        k = k + 1;
    }
    acc
}

/// The first penalty rule.
fn eval_runs(g: &Vec<Vec<bool>>) -> (r: u64)
    requires
        square(grid_view(g@), g@.len() as int),
        g@.len() <= MAX_EVAL_SIZE,
    ensures
        r == penalty_runs(grid_view(g@)),
        r <= 240000,
{
    let n = g.len();
    let mut rows: u64 = 0;
    let mut cols: u64 = 0;
    let mut i: usize = 0;
    while i < n
        invariant
            square(grid_view(g@), g@.len() as int),
            n == g@.len() <= MAX_EVAL_SIZE,
            i <= n,
            rows == runs_lines(grid_view(g@), false, i as int),
            cols == runs_lines(grid_view(g@), true, i as int),
            rows <= 600 * i,
            cols <= 600 * i,
        decreases n - i,
    {
        rows = rows + line_runs(g, false, i);
        cols = cols + line_runs(g, true, i);
        i = i + 1;
    }
    rows + cols
}

/// The second penalty rule.
fn eval_blocks(g: &Vec<Vec<bool>>) -> (r: u64)
    requires
        square(grid_view(g@), g@.len() as int),
        g@.len() <= MAX_EVAL_SIZE,
    ensures
        r == penalty_blocks(grid_view(g@)),
        r <= 120000,
{
    let ghost gv = grid_view(g@);
    let n = g.len();
    if n == 0 {
        return 0;
    }
    let mut acc: u64 = 0;
    let mut y: usize = 0;
    while y < n - 1
        invariant
            gv == grid_view(g@),
            square(gv, g@.len() as int),
            1 <= n == g@.len() <= MAX_EVAL_SIZE,
            y <= n - 1,
            acc == block_rows(gv, y as int),
            acc <= 600 * y,
        decreases n - 1 - y,
    {
        let mut row: u64 = 0;
        let mut x: usize = 0;
        while x < n - 1
            invariant
                gv == grid_view(g@),
                square(gv, g@.len() as int),
                1 <= n == g@.len() <= MAX_EVAL_SIZE,
                y < n - 1,
                x <= n - 1,
                row == block_row(gv, y as int, x as int),
                row <= 3 * x,
            decreases n - 1 - x,
        {
            proof {
                assert(gv[y as int] == g@[y as int]@);
                assert(gv[y + 1] == g@[y + 1]@);
            }
            let c = g[y][x];
            if g[y][x + 1] == c && g[y + 1][x] == c && g[y + 1][x + 1] == c {
                row = row + 3;
            }
            x = x + 1;
        }
        acc = acc + row;
        y = y + 1;
    }
    acc
}

/// Does the pattern, or its mirror image if `mirror`, start at position `k`
/// of the line?
fn finder_at(g: &Vec<Vec<bool>>, vertical: bool, i: usize, k: usize, mirror: bool) -> (r: bool)
    requires
        square(grid_view(g@), g@.len() as int),
        g@.len() <= MAX_EVAL_SIZE,
        i < g@.len(),
        k + 11 <= g@.len(),
    ensures
        r == matches_at(
            line(grid_view(g@), vertical, i as int),
            k as int,
            if mirror {
                finder_like().reverse()
            } else {
                finder_like()
            },
        ),
{
    let ghost a = line(grid_view(g@), vertical, i as int);
    let ghost p = if mirror {
        finder_like().reverse()
    } else {
        finder_like()
    };
    let pat: [bool; 11] = [true, false, true, true, true, false, true, false, false, false, false];
    proof {
        assert(pat@ =~= finder_like());
    }
    let mut t: usize = 0;
    while t < 11
        invariant
            square(grid_view(g@), g@.len() as int),
            i < g@.len(),
            k + 11 <= g@.len(),
            a == line(grid_view(g@), vertical, i as int),
            pat@ == finder_like(),
            p == if mirror {
                finder_like().reverse()
            } else {
                finder_like()
            },
            t <= 11,
            g@.len() <= MAX_EVAL_SIZE,
            forall|q: int| 0 <= q < t ==> #[trigger] a[k + q] == p[q],
        decreases 11 - t,
    {
        let want = if mirror {
            pat[10 - t]
        } else {
            pat[t]
        };
        if cell_at(g, vertical, i, k + t) != want {
            return false;
        }
        t = t + 1;
    }
    true
}

/// The third penalty rule on one row, or column if `vertical`.
fn line_finders(g: &Vec<Vec<bool>>, vertical: bool, i: usize) -> (r: u64)
    requires
        square(grid_view(g@), g@.len() as int),
        g@.len() <= MAX_EVAL_SIZE,
        i < g@.len(),
    ensures
        r == finder_penalty(line(grid_view(g@), vertical, i as int)),
        r <= 8000,
{
    let n = g.len();
    let ghost a = line(grid_view(g@), vertical, i as int);
    let mut acc: u64 = 0;
    let mut k: usize = 0;
    while k + 10 < n
        invariant
            square(grid_view(g@), g@.len() as int),
            n == g@.len() <= MAX_EVAL_SIZE,
            i < n,
            a == line(grid_view(g@), vertical, i as int),
            a.len() == n,
            k <= n - 10 || k == 0,
            acc == finder_sum(a, k as int),
            acc <= 40 * k,
        decreases n - k,
    {
        if finder_at(g, vertical, i, k, false) || finder_at(g, vertical, i, k, true) {
            acc = acc + 40;
        }
        k = k + 1;
    }
    acc
}

/// The third penalty rule.
fn eval_finders(g: &Vec<Vec<bool>>) -> (r: u64)
    requires
        square(grid_view(g@), g@.len() as int),
        g@.len() <= MAX_EVAL_SIZE,
    ensures
        r == penalty_finders(grid_view(g@)),
        r <= 3200000,
{
    let n = g.len();
    let mut rows: u64 = 0;
    let mut cols: u64 = 0;
    let mut i: usize = 0;
    while i < n
        invariant
            square(grid_view(g@), g@.len() as int),
            n == g@.len() <= MAX_EVAL_SIZE,
            i <= n,
            rows == finders_lines(grid_view(g@), false, i as int),
            cols == finders_lines(grid_view(g@), true, i as int),
            rows <= 8000 * i,
            cols <= 8000 * i,
        decreases n - i,
    {
        rows = rows + line_finders(g, false, i);
        cols = cols + line_finders(g, true, i);
        i = i + 1;
    }
    rows + cols
}

/// The number of dark cells.
fn count_dark(g: &Vec<Vec<bool>>) -> (r: u64)
    requires
        square(grid_view(g@), g@.len() as int),
        g@.len() <= MAX_EVAL_SIZE,
    ensures
        r == dark_rows(grid_view(g@), g@.len() as int),
        r <= g@.len() * g@.len(),
{
    let ghost gv = grid_view(g@);
    let n = g.len();
    let mut acc: u64 = 0;
    let mut y: usize = 0;
    while y < n
        invariant
            gv == grid_view(g@),
            square(gv, g@.len() as int),
            n == g@.len() <= MAX_EVAL_SIZE,
            y <= n,
            acc == dark_rows(gv, y as int),
            acc <= n * y,
            acc <= 200 * y,
        decreases n - y,
    {
        let mut row: u64 = 0;
        let mut x: usize = 0;
        while x < n
            invariant
                gv == grid_view(g@),
                square(gv, g@.len() as int),
                n == g@.len() <= MAX_EVAL_SIZE,
                y < n,
                x <= n,
                row == dark_in_line(gv[y as int], x as int),
                row <= x,
            decreases n - x,
        {
            if g[y][x] {
                row = row + 1;
            }
            x = x + 1;
        }
        proof {
            assert(acc + row <= n * (y + 1)) by (nonlinear_arith)
                requires
                    acc <= n * y,
                    row <= n,
            ;
        }
        acc = acc + row;
        y = y + 1;
    }
    acc
}

/// The fourth penalty rule.
fn eval_balance(dark: u64, total: u64) -> (r: u64)
    requires
        1 <= total,
        dark <= total <= MAX_EVAL_SIZE * MAX_EVAL_SIZE,
    ensures
        r == balance_penalty(dark as int, total as int),
        r <= 100,
{
    let percent = dark * 100 / total;
    assert(percent <= 100) by (nonlinear_arith)
        requires
            dark <= total,
            1 <= total,
            percent as int == (dark as int * 100) / (total as int),
    ;
    let prev = percent - percent % 5;
    let next = prev + 5;
    let a = if prev >= 50 {
        (prev - 50) / 5
    } else {
        (50 - prev) / 5
    };
    let b = if next >= 50 {
        (next - 50) / 5
    } else {
        (50 - next) / 5
    };
    10 * if a < b {
        a
    } else {
        b
    }
}

/// The total penalty of a grid of dark and light cells.
pub fn evaluate(g: &Vec<Vec<bool>>) -> (r: u64)
    requires
        square(grid_view(g@), g@.len() as int),
        1 <= g@.len() <= MAX_EVAL_SIZE,
    ensures
        r == penalty(grid_view(g@)),
{
    let n = g.len();
    assert(n * n <= MAX_EVAL_SIZE * MAX_EVAL_SIZE) by (nonlinear_arith)
        requires
            n <= MAX_EVAL_SIZE,
    ;
    assert(1 <= n * n) by (nonlinear_arith)
        requires
            1 <= n,
    ;
    let total = (n * n) as u64;
    let dark = count_dark(g);
    reveal(penalty);
    eval_runs(g) + eval_blocks(g) + eval_finders(g) + eval_balance(dark, total)
}

/// Choose the mask of lowest penalty, the lowest one on ties.
pub fn mask(matrix: &Matrix) -> (r: Mask)
    requires
        matrix.wf(),
        1 <= matrix.size <= MAX_EVAL_SIZE,
    ensures
        r.0 < 8,
        r.0 == best_mask(cells_of(*matrix), matrix.size as nat, 8),
{
    reveal(best_mask);
    let mut best: usize = 0;
    let mut best_score = evaluate(&masked_darkness(matrix, 0));
    let mut m: usize = 1;
    while m < 8
        invariant
            matrix.wf(),
            1 <= matrix.size <= MAX_EVAL_SIZE,
            1 <= m <= 8,
            best < m,
            best == best_mask(cells_of(*matrix), matrix.size as nat, m as int),
            best_score == mask_score(cells_of(*matrix), matrix.size as nat, best as int),
        decreases 8 - m,
    {
        reveal(best_mask);
        let score = evaluate(&masked_darkness(matrix, m));
        if score < best_score {
            best = m;
            best_score = score;
        }
        m = m + 1;
    }
    Mask(best)
}

} // verus!
