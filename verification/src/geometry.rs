//! Grid coordinates and the four movement directions.

use vstd::prelude::*;

verus! {

/// One of the four grid directions. `Top` increases `y`, `Right` increases `x`.
#[derive(Copy, Clone, Eq, PartialEq, Debug, Structural)]
pub enum Direction {
    Top,
    Right,
    Bottom,
    Left,
}

impl Direction {
    /// The direction pointing the other way.
    pub open spec fn spec_opposite(self) -> Direction {
        match self {
            Direction::Top => Direction::Bottom,
            Direction::Right => Direction::Left,
            Direction::Bottom => Direction::Top,
            Direction::Left => Direction::Right,
        }
    }

    /// Whether the direction runs along the y axis.
    pub open spec fn spec_is_vertical(self) -> bool {
        self == Direction::Top || self == Direction::Bottom
    }

    /// The direction pointing the other way.
    pub fn opposite_direction(&self) -> (r: Self)
        ensures
            r == self.spec_opposite(),
    {
        match self {
            Direction::Top => Direction::Bottom,
            Direction::Right => Direction::Left,
            Direction::Bottom => Direction::Top,
            Direction::Left => Direction::Right,
        }
    }

    /// Whether the direction is `Top` or `Bottom`.
    pub fn is_vertical(&self) -> (r: bool)
        ensures
            r == self.spec_is_vertical(),
    {
        match self {
            Direction::Top | Direction::Bottom => true,
            Direction::Left | Direction::Right => false,
        }
    }

    /// Whether the direction is `Left` or `Right`.
    pub fn is_horizontal(&self) -> (r: bool)
        ensures
            r == !self.spec_is_vertical(),
    {
        !self.is_vertical()
    }

    /// `opposite` is an involution and never a fixed point, and it keeps
    /// the axis.
    pub proof fn opposite_is_involutive(d: Direction)
        ensures
            d.spec_opposite().spec_opposite() == d,
            d.spec_opposite() != d,
            d.spec_opposite().spec_is_vertical() == d.spec_is_vertical(),
    {
    }
}

/// A grid cell `(x, y)`.
#[derive(Copy, Clone, Eq, PartialEq, Debug, Structural)]
pub struct Point(pub u16, pub u16);

impl Point {
    /// The two cells are at Manhattan distance exactly one.
    pub open spec fn near(self, p: Point) -> bool {
        ||| (self.0 == p.0 && (self.1 - p.1 == 1 || p.1 - self.1 == 1))
        ||| (self.1 == p.1 && (self.0 - p.0 == 1 || p.0 - self.0 == 1))
    }

    /// The two cells share a row or a column.
    pub open spec fn aligned(self, p: Point) -> bool {
        self.0 == p.0 || self.1 == p.1
    }

    /// The direction in which `self` lies as seen from `p`, for cells that
    /// share a row or a column; for equal cells it is `Top`.
    pub open spec fn offset_from(self, p: Point) -> Option<Direction> {
        if self.0 == p.0 {
            Some(if self.1 < p.1 { Direction::Bottom } else { Direction::Top })
        } else if self.1 == p.1 {
            Some(if self.0 < p.0 { Direction::Left } else { Direction::Right })
        } else {
            None
        }
    }

    /// The cell mirrored on the horizontal axis of a grid of the given height.
    pub open spec fn mirrored(self, dimension_y: u16) -> Point
        recommends
            self.1 <= dimension_y,
    {
        Point(self.0, (dimension_y - self.1) as u16)
    }

    /// Whether the two cells are at distance one.
    pub fn is_near_with(&self, p: &Point) -> (r: bool)
        ensures
            r == self.near(*p),
    {
        if self.0 == p.0 {
            if self.1 > p.1 {
                self.1 - p.1 == 1
            } else {
                p.1 - self.1 == 1
            }
        } else if self.1 == p.1 {
            if self.0 > p.0 {
                self.0 - p.0 == 1
            } else {
                p.0 - self.0 == 1
            }
        } else {
            false
        }
    }

    /// The side of `p` on which `self` lies, if the two share a row or a
    /// column.
    pub fn offset_from_near(&self, p: &Point) -> (r: Option<Direction>)
        ensures
            r == self.offset_from(*p),
            r.is_some() == self.aligned(*p),
    {
        if self.0 == p.0 {
            Some(if self.1 < p.1 { Direction::Bottom } else { Direction::Top })
        } else if self.1 == p.1 {
            Some(if self.0 < p.0 { Direction::Left } else { Direction::Right })
        } else {
            None
        }
    }

    /// Mirrors the cell on the horizontal axis: `y` becomes `dimension_y - y`.
    pub fn reverse_y(&mut self, dimension_y: u16)
        requires
            old(self).1 <= dimension_y,
        ensures
            *final(self) == old(self).mirrored(dimension_y),
            final(self).0 == old(self).0,
            final(self).1 == dimension_y - old(self).1,
    {
        self.1 = dimension_y - self.1;
    }

    /// Mirroring twice on the same height gives the cell back.
    pub proof fn mirrored_twice(p: Point, dimension_y: u16)
        requires
            p.1 <= dimension_y,
        ensures
            p.mirrored(dimension_y).1 <= dimension_y,
            p.mirrored(dimension_y).mirrored(dimension_y) == p,
    {
    }

    /// Nearness is symmetric, implies alignment, and excludes equality.
    pub proof fn near_is_symmetric(p: Point, q: Point)
        ensures
            p.near(q) == q.near(p),
            p.near(q) ==> p.aligned(q) && p != q,
    {
    }
}

} // verus!
