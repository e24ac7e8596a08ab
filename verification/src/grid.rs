use vstd::prelude::*;

use crate::direction::Direction;
use crate::point::random_below;
use crate::point::Point;
use vstd::arithmetic::div_mod::lemma_fundamental_div_mod;
use vstd::arithmetic::div_mod::lemma_fundamental_div_mod_converse;
use vstd::arithmetic::div_mod::lemma_mod_bound;
use vstd::pervasive::unreached;

verus! {

/// `p` lies on a grid of `columns` by `rows` cells.
pub open spec fn in_bounds(p: Point, columns: u16, rows: u16) -> bool {
    p.x < columns && p.y < rows
}

/// One step forward with wrap-around: `bound - 1` steps to `0`.
pub open spec fn inc_wrap(v: u16, bound: u16) -> u16 {
    if v + 1 < bound {
        (v + 1) as u16
    } else {
        0u16
    }
}

/// One step backward with wrap-around: `0` steps to `bound - 1`.
pub open spec fn dec_wrap(v: u16, bound: u16) -> u16 {
    if v == 0 {
        (bound - 1) as u16
    } else {
        (v - 1) as u16
    }
}

/// Where a head at `p` moves to when it travels one cell in direction `d` on
/// the toroidal grid: coordinates wrap modulo the grid bounds, so the board
/// has no edges.
pub open spec fn step_spec(p: Point, d: Direction, columns: u16, rows: u16) -> Point {
    match d {
        Direction::Up => (Point { x: p.x, y: dec_wrap(p.y, rows) }),
        Direction::Right => (Point { x: inc_wrap(p.x, columns), y: p.y }),
        Direction::Down => (Point { x: p.x, y: inc_wrap(p.y, rows) }),
        Direction::Left => (Point { x: dec_wrap(p.x, columns), y: p.y }),
    }
}

/// Movement wraps around the toroidal grid: stepping off one edge re-enters
/// on the opposite edge, and any step from an in-bounds cell lands in bounds.
pub proof fn lemma_step_wraps(p: Point, columns: u16, rows: u16)
    requires
        columns >= 1,
        rows >= 1,
        in_bounds(p, columns, rows),
    ensures
        p.x == columns - 1 ==> step_spec(p, Direction::Right, columns, rows).x == 0,
        p.x == 0 ==> step_spec(p, Direction::Left, columns, rows).x == columns - 1,
        p.y == rows - 1 ==> step_spec(p, Direction::Down, columns, rows).y == 0,
        p.y == 0 ==> step_spec(p, Direction::Up, columns, rows).y == rows - 1,
        p.x < columns - 1 ==> step_spec(p, Direction::Right, columns, rows).x == p.x + 1,
        p.x >= 1 ==> step_spec(p, Direction::Left, columns, rows).x == p.x - 1,
        p.y < rows - 1 ==> step_spec(p, Direction::Down, columns, rows).y == p.y + 1,
        p.y >= 1 ==> step_spec(p, Direction::Up, columns, rows).y == p.y - 1,
        forall|d: Direction| in_bounds(#[trigger] step_spec(p, d, columns, rows), columns, rows),
{
}

/// Compute one wrapping step; the executable twin of [`step_spec`].
pub(crate) fn step(p: Point, d: Direction, columns: u16, rows: u16) -> (r: Point)
    requires
        columns >= 1,
        rows >= 1,
        in_bounds(p, columns, rows),
    ensures
        r == step_spec(p, d, columns, rows),
        in_bounds(r, columns, rows),
{
    match d {
        Direction::Up => Point { x: p.x, y: if p.y == 0 { rows - 1 } else { p.y - 1 } },
        Direction::Right => Point { x: if p.x + 1 < columns { p.x + 1 } else { 0 }, y: p.y },
        Direction::Down => Point { x: p.x, y: if p.y + 1 < rows { p.y + 1 } else { 0 } },
        Direction::Left => Point { x: if p.x == 0 { columns - 1 } else { p.x - 1 }, y: p.y },
    }
}

/// Whether `p` occurs in `v`.
pub(crate) fn contains_point(v: &Vec<Point>, p: Point) -> (b: bool)
    ensures
        b == v@.contains(p),
{
    let mut i: usize = 0;
    while i < v.len()
        invariant
            i <= v@.len(),
            forall|j: int| 0 <= j < i ==> v@[j] != p,
        decreases v@.len() - i,
    {
        if v[i] == p {
            return true;
        }
        i += 1;
    }
    false
}

/// The cell with row-major index `k` on a grid `columns` wide.
spec fn cell_at(k: int, columns: u16) -> Point {
    Point { x: (k % (columns as int)) as u16, y: (k / (columns as int)) as u16 }
}

/// The row-major index of `p` on a grid `columns` wide.
spec fn index_of(p: Point, columns: u16) -> int {
    p.y * columns + p.x
}

/// An in-bounds point is recovered from its row-major index.
proof fn lemma_cell_of_index(p: Point, columns: u16, rows: u16)
    requires
        columns >= 1,
        in_bounds(p, columns, rows),
    ensures
        0 <= index_of(p, columns) < columns * rows,
        cell_at(index_of(p, columns), columns) == p,
{
    let c: int = columns as int;
    let x: int = p.x as int;
    let y: int = p.y as int;
    assert(0 <= y * c + x && y * c + x < c * (rows as int)) by (nonlinear_arith)
        requires
            0 <= x < c,
            0 <= y < rows as int,
            c >= 1,
    ;
    lemma_fundamental_div_mod_converse(y * c + x, c, y, x);
}

/// A row-major index below the board's area names an in-bounds cell, and that
/// cell's index is the index itself.
proof fn lemma_cell_in_bounds(k: int, columns: u16, rows: u16)
    requires
        columns >= 1,
        rows >= 1,
        0 <= k < columns * rows,
    ensures
        0 <= k % (columns as int) < columns,
        0 <= k / (columns as int) < rows,
        in_bounds(cell_at(k, columns), columns, rows),
        index_of(cell_at(k, columns), columns) == k,
{
    let c: int = columns as int;
    let r: int = rows as int;
    lemma_mod_bound(k, c);
    lemma_fundamental_div_mod(k, c);
    let q: int = k / c;
    let rm: int = k % c;
    assert(0 <= q < r) by (nonlinear_arith)
        requires
            k == c * q + rm,
            0 <= rm < c,
            0 <= k < c * r,
            c >= 1,
    ;
    assert(index_of(cell_at(k, columns), columns) == q * c + rm);
    assert(q * c + rm == k) by (nonlinear_arith)
        requires
            k == c * q + rm,
    ;
}

/// How many of the first `k` cells, in row-major order, hold no segment of
/// `s`.
spec fn free_count(s: Seq<Point>, columns: u16, k: int) -> int
    decreases k,
{
    if k <= 0 {
        0
    } else {
        free_count(s, columns, k - 1) + if s.contains(cell_at(k - 1, columns)) {
            0int
        } else {
            1int
        }
    }
}

/// With no segments at all, every cell is free.
proof fn lemma_free_count_empty(s: Seq<Point>, columns: u16, k: int)
    requires
        s.len() == 0,
        k >= 0,
    ensures
        free_count(s, columns, k) == k,
    decreases k,
{
    if k > 0 {
        lemma_free_count_empty(s, columns, k - 1);
    }
}

/// Adding one in-bounds segment takes exactly one cell, its own, out of the
/// free count.
proof fn lemma_free_count_push(s: Seq<Point>, p: Point, columns: u16, rows: u16, k: int)
    requires
        columns >= 1,
        rows >= 1,
        columns * rows <= u16::MAX,
        in_bounds(p, columns, rows),
        !s.contains(p),
        0 <= k <= columns * rows,
    ensures
        free_count(s.push(p), columns, k) == free_count(s, columns, k) - (if index_of(
            p,
            columns,
        ) < k {
            1int
        } else {
            0int
        }),
    decreases k,
{
    if k > 0 {
        lemma_free_count_push(s, p, columns, rows, k - 1);
        let cell = cell_at(k - 1, columns);
        lemma_cell_in_bounds(k - 1, columns, rows);
        lemma_cell_of_index(p, columns, rows);
        assert(cell == p <==> index_of(p, columns) == k - 1);
        assert(s.push(p).contains(cell) <==> s.contains(cell) || cell == p) by {
            if s.push(p).contains(cell) {
                let i = choose|i: int|
                    0 <= i < s.push(p).len() && s.push(p)[i] == cell;
                if i < s.len() {
                    assert(s[i] == cell);
                } else {
                    assert(cell == p);
                }
            }
            if s.contains(cell) {
                let i = choose|i: int| 0 <= i < s.len() && s[i] == cell;
                assert(s.push(p)[i] == cell);
            }
            if cell == p {
                assert(s.push(p)[s.len() as int] == cell);
            }
        }
    }
}

/// Over the whole board, the free cells are exactly those the snake does not
/// occupy: a duplicate-free, in-bounds snake of length `n` leaves
/// `columns * rows - n` free cells.
proof fn lemma_free_count_full(s: Seq<Point>, columns: u16, rows: u16)
    requires
        columns >= 1,
        rows >= 1,
        columns * rows <= u16::MAX,
        s.no_duplicates(),
        forall|i: int| 0 <= i < s.len() ==> in_bounds(#[trigger] s[i], columns, rows),
    ensures
        free_count(s, columns, columns * rows) == columns * rows - s.len(),
    decreases s.len(),
{
    let area: int = columns as int * rows as int;
    if s.len() == 0 {
        lemma_free_count_empty(s, columns, area);
    } else {
        let s0 = s.drop_last();
        let p = s.last();
        assert(!s0.contains(p)) by {
            if s0.contains(p) {
                let j = choose|j: int| 0 <= j < s0.len() && s0[j] == p;
                assert(s[j] == s[s.len() - 1]);
            }
        }
        assert(s =~= s0.push(p));
        lemma_free_count_full(s0, columns, rows);
        lemma_free_count_push(s0, p, columns, rows, area);
        lemma_cell_of_index(p, columns, rows);
    }
}

/// Choose a food cell: the `n`-th free cell of the board in row-major order,
/// for `n` drawn uniformly below the number of free cells. Because `n` is
/// uniform, so is the chosen free cell.
pub(crate) fn pick_free_cell(snake: &Vec<Point>, columns: u16, rows: u16) -> (p: Point)
    requires
        columns >= 1,
        rows >= 1,
        columns * rows <= u16::MAX,
        snake@.no_duplicates(),
        forall|i: int| 0 <= i < snake@.len() ==> in_bounds(#[trigger] snake@[i], columns, rows),
        snake@.len() < columns * rows,
    ensures
        in_bounds(p, columns, rows),
        !snake@.contains(p),
{
    let columns32: u32 = columns as u32;
    let area: u32 = columns32 * rows as u32;
    let len: u32 = snake.len() as u32;
    let free: u16 = (area - len) as u16;
    let n: u16 = random_below(free);
    let mut k: u32 = 0;
    let mut count: u16 = 0;
    while k < area
        invariant
            columns >= 1,
            rows >= 1,
            columns * rows <= u16::MAX,
            columns32 == columns,
            area == columns * rows,
            snake@.no_duplicates(),
            forall|i: int| 0 <= i < snake@.len() ==> in_bounds(#[trigger] snake@[i], columns, rows),
            snake@.len() < area,
            n < area - snake@.len(),
            0 <= k <= area,
            count == free_count(snake@, columns, k as int),
            count <= n,
        decreases area - k,
    {
        proof {
            lemma_cell_in_bounds(k as int, columns, rows);
        }
        let x: u16 = (k % columns32) as u16;
        let y: u16 = (k / columns32) as u16;
        let p = Point::new(x, y);
        assert(p == cell_at(k as int, columns));
        assert(free_count(snake@, columns, k as int + 1) == free_count(snake@, columns, k as int)
            + if snake@.contains(cell_at(k as int, columns)) {
            0int
        } else {
            1int
        });
        if !contains_point(snake, p) {
            if count == n {
                return p;
            }
            count = count + 1;
        }
        k = k + 1;
    }
    proof {
        lemma_free_count_full(snake@, columns, rows);
        assert(false);
    }
    unreached()
}

} // verus!
