//! Grid positions and the eight compass directions.
use vstd::prelude::*;
use crate::random::gen_range_i16;

pub mod dirs;

verus! {

/// A cell position (or an offset) on the map grid.
#[derive(Debug, Clone, Copy, PartialEq, Eq, Structural, Hash)]
pub struct Pos {
    pub x: i16,
    pub y: i16,
}

pub open spec fn in_i16(v: int) -> bool {
    i16::MIN <= v <= i16::MAX
}

impl Pos {
    /// The component-wise sum can be computed without overflow.
    pub open spec fn add_ok(self, rhs: Pos) -> bool {
        in_i16(self.x + rhs.x) && in_i16(self.y + rhs.y)
    }

    pub open spec fn plus(self, rhs: Pos) -> Pos {
        Pos { x: (self.x + rhs.x) as i16, y: (self.y + rhs.y) as i16 }
    }

    pub open spec fn minus(self, rhs: Pos) -> Pos {
        Pos { x: (self.x - rhs.x) as i16, y: (self.y - rhs.y) as i16 }
    }

    pub fn new(x: i16, y: i16) -> (r: Pos)
        ensures
            r == (Pos { x, y }),
    {
        Pos { x, y }
    }

    /// A random position with each coordinate drawn from `[0, max)` (from
    /// `[max, 0]` for a negative bound, as the generator truncates toward zero).
    pub fn rand(max: Pos) -> (r: Pos)
        ensures
            0 <= max.x ==> 0 <= r.x <= max.x && (0 < max.x ==> r.x < max.x),
            0 <= max.y ==> 0 <= r.y <= max.y && (0 < max.y ==> r.y < max.y),
            max.x < 0 ==> max.x <= r.x <= 0,
            max.y < 0 ==> max.y <= r.y <= 0,
    {
        let x = gen_range_i16(0, max.x);
        let y = gen_range_i16(0, max.y);
        Pos { x, y }
    }

    pub fn add(self, rhs: Pos) -> (r: Pos)
        requires
            self.add_ok(rhs),
        ensures
            r == self.plus(rhs),
    {
        Pos { x: self.x + rhs.x, y: self.y + rhs.y }
    }

    pub fn sub(self, rhs: Pos) -> (r: Pos)
        requires
            in_i16(self.x - rhs.x),
            in_i16(self.y - rhs.y),
        ensures
            r == self.minus(rhs),
            r.x == self.x - rhs.x,
            r.y == self.y - rhs.y,
    {
        Pos { x: self.x - rhs.x, y: self.y - rhs.y }
    }
}

impl From<(i16, i16)> for Pos {
    fn from(value: (i16, i16)) -> (r: Pos) {
        Pos { x: value.0, y: value.1 }
    }
}

impl vstd::std_specs::convert::FromSpecImpl<(i16, i16)> for Pos {
    open spec fn obeys_from_spec() -> bool {
        true
    }

    open spec fn from_spec(v: (i16, i16)) -> Pos {
        Pos { x: v.0, y: v.1 }
    }
}

/// Stepping by an offset and back returns to the start.
pub proof fn law_step_back(p: Pos, d: Pos)
    requires
        p.add_ok(d),
    ensures
        p.plus(d).minus(d) == p,
{
}

} // verus!
