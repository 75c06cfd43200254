//! Grid coordinates and the four headings.

use vstd::prelude::*;
use core::cmp::Ordering;

verus! {

/// A cell of the grid, or a displacement between two cells. Points are
/// ordered by `x`, and by `y` where `x` is the same.
#[derive(Debug, Copy, Clone, PartialEq, Eq, Structural, Ord, Hash)]
pub struct Point {
    pub x: i16,
    pub y: i16,
}

impl Point {
    /// Whether `self` comes before `other` in the order of points.
    pub open spec fn precedes(self, other: Point) -> bool {
        self.x < other.x || (self.x == other.x && self.y < other.y)
    }

    /// Whether the component-wise sum with `delta` can be held in a `Point`.
    pub open spec fn sum_fits(self, delta: Point) -> bool {
        &&& i16::MIN <= self.x + delta.x <= i16::MAX
        &&& i16::MIN <= self.y + delta.y <= i16::MAX
    }

    /// The component-wise sum with `delta`.
    pub open spec fn plus(self, delta: Point) -> Point
        recommends
            self.sum_fits(delta),
    {
        Point { x: (self.x + delta.x) as i16, y: (self.y + delta.y) as i16 }
    }
}

impl PartialOrd for Point {
    fn partial_cmp(&self, other: &Point) -> (order: Option<Ordering>) {
        if self.x < other.x {
            Some(Ordering::Less)
        } else if self.x > other.x {
            Some(Ordering::Greater)
        } else if self.y < other.y {
            Some(Ordering::Less)
        } else if self.y > other.y {
            Some(Ordering::Greater)
        } else {
            Some(Ordering::Equal)
        }
    }
}

impl vstd::std_specs::cmp::PartialOrdSpecImpl for Point {
    open spec fn obeys_partial_cmp_spec() -> bool {
        true
    }

    open spec fn partial_cmp_spec(&self, other: &Point) -> Option<Ordering> {
        if self.precedes(*other) {
            Some(Ordering::Less)
        } else if other.precedes(*self) {
            Some(Ordering::Greater)
        } else {
            Some(Ordering::Equal)
        }
    }
}

impl vstd::std_specs::ops::AddSpecImpl for Point {
    open spec fn obeys_add_spec() -> bool {
        true
    }

    open spec fn add_req(self, rhs: Point) -> bool {
        self.sum_fits(rhs)
    }

    open spec fn add_spec(self, rhs: Point) -> Point {
        self.plus(rhs)
    }
}

impl core::ops::Add for Point {
    type Output = Point;

    fn add(self, delta: Point) -> (sum: Point) {
        Point { x: self.x + delta.x, y: self.y + delta.y }
    }
}

/// One of the four headings a snake can have.
#[derive(Debug, Copy, Clone, PartialEq, Eq, Structural, Hash)]
pub enum Direction {
    Up,
    Down,
    Left,
    Right,
}

impl Direction {
    /// The unit step of this heading; `y` grows downwards.
    pub open spec fn delta(self) -> Point {
        match self {
            Direction::Up => Point { x: 0, y: (-1) as i16 },
            Direction::Down => Point { x: 0, y: 1 },
            Direction::Left => Point { x: (-1) as i16, y: 0 },
            Direction::Right => Point { x: 1, y: 0 },
        }
    }

    /// The sign that shows a head with this heading.
    pub open spec fn glyph(self) -> Seq<char> {
        match self {
            Direction::Up => seq!['^'],
            Direction::Down => seq!['v'],
            Direction::Left => seq!['<'],
            Direction::Right => seq!['>'],
        }
    }

    /// The unit step of this heading as a displacement.
    #[allow(non_snake_case)]
    pub fn direction_to_Point(&self) -> (step: Point)
        ensures
            step == self.delta(),
    {
        match self {
            Direction::Up => Point { x: 0, y: -1 },
            Direction::Down => Point { x: 0, y: 1 },
            Direction::Left => Point { x: -1, y: 0 },
            Direction::Right => Point { x: 1, y: 0 },
        }
    }
}

/// The order of points is a strict total order: of two points one precedes
/// the other or they are the same point, never more than one of the three;
/// and what precedes a point precedes what that point precedes.
pub proof fn lemma_point_order(p: Point, q: Point, r: Point)
    ensures
        p.precedes(q) || q.precedes(p) || p == q,
        !(p.precedes(q) && q.precedes(p)),
        !p.precedes(p),
        p.precedes(q) && q.precedes(r) ==> p.precedes(r),
{
}

} // verus!
