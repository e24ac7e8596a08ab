use vstd::prelude::*;

use rand::Rng;

verus! {

/// A coordinate on the game grid. The engine keeps every point it holds
/// inside the grid bounds: `x < columns`, `y < rows`.
#[derive(Clone, Copy, PartialEq, Eq, Structural, Debug)]
pub struct Point {
    pub x: u16,
    pub y: u16,
}

impl Point {
    pub fn new(x: u16, y: u16) -> (p: Point)
        ensures
            p.x == x,
            p.y == y,
    {
        Point { x, y }
    }

    /// Draw a point uniformly from `[0, columns) x [0, rows)`.
    pub fn random(columns: u16, rows: u16) -> (p: Point)
        requires
            columns >= 1,
            rows >= 1,
        ensures
            p.x < columns,
            p.y < rows,
    {
        let x: u16 = random_below(columns);
        let y: u16 = random_below(rows);
        Point::new(x, y)
    }

    /// The coordinate as a plain pair.
    pub fn coords(self) -> (c: (u16, u16))
        ensures
            c.0 == self.x,
            c.1 == self.y,
    {
        (self.x, self.y)
    }

    /// Component-wise translation, used by renderers to shift grid
    /// coordinates into screen coordinates. The engine itself never calls it.
    pub fn add(self, other: Point) -> (p: Point)
        requires
            self.x + other.x <= u16::MAX,
            self.y + other.y <= u16::MAX,
        ensures
            p.x == self.x + other.x,
            p.y == self.y + other.y,
    {
        Point { x: self.x + other.x, y: self.y + other.y }
    }
}

impl Default for Point {
    /// The origin, `(0, 0)`.
    fn default() -> (p: Point)
        ensures
            p.x == 0,
            p.y == 0,
    {
        Point { x: 0, y: 0 }
    }
}

/// Relies on `rand::thread_rng` and `rand::Rng::gen_range`: a `u16` drawn
/// uniformly from `[0, bound)`. The contract keeps only the range bound;
/// nothing is assumed about which value comes back.
#[verifier::external_body]
pub(crate) fn random_below(bound: u16) -> (r: u16)
    requires
        bound >= 1,
    ensures
        r < bound,
{
    rand::thread_rng().gen_range(0..bound)
}

} // verus!
