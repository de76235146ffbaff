use vstd::prelude::*;
use vstd::string::StringExecFns;

use crate::fmt::{dec_str, u32_to_string};

verus! {

/// A cell of the warehouse grid: three non-negative integer coordinates.
/// An immutable value type with no identity.
#[derive(Hash, Eq, PartialEq, Clone, Copy, Debug, Default, Structural)]
pub struct Location {
    pub x: u32,
    pub y: u32,
    pub z: u32,
}

/// The display projection of a cell.
pub open spec fn location_render_spec(l: Location) -> Seq<char> {
    "{ \"x\": "@ + dec_str(l.x as nat) + ", \"y\": "@ + dec_str(l.y as nat) + ", \"z\": "@
        + dec_str(l.z as nat) + " }"@
}

/// The absolute difference of two coordinates along one axis.
pub open spec fn axis_dist(a: u32, b: u32) -> int {
    if a >= b {
        a - b
    } else {
        b - a
    }
}

/// The Manhattan distance between two cells: the sum of the absolute
/// per-axis differences.
pub open spec fn manhattan(a: Location, b: Location) -> int {
    axis_dist(a.x, b.x) + axis_dist(a.y, b.y) + axis_dist(a.z, b.z)
}

/// Two cells are adjacent iff their Manhattan distance is at most 1;
/// in particular a cell is adjacent to itself.
pub open spec fn adjacent(a: Location, b: Location) -> bool {
    manhattan(a, b) <= 1
}

impl Location {
    pub fn new(x: u32, y: u32, z: u32) -> (r: Self)
        ensures
            r == (Location { x, y, z }),
    {
        Self { x, y, z }
    }

    /// Whether `target` is in the same cell as `self` or exactly one step
    /// away along a single axis.
    pub fn nearby(&self, target: Location) -> (r: bool)
        ensures
            r == adjacent(*self, target),
    {
        let dx: u64 = if self.x >= target.x {
            (self.x - target.x) as u64
        } else {
            (target.x - self.x) as u64
        };
        let dy: u64 = if self.y >= target.y {
            (self.y - target.y) as u64
        } else {
            (target.y - self.y) as u64
        };
        let dz: u64 = if self.z >= target.z {
            (self.z - target.z) as u64
        } else {
            (target.z - self.z) as u64
        };
        dx + dy + dz <= 1
    }

    pub fn left(&self) -> (r: Self)
        requires
            self.x >= 1,
        ensures
            r == (Location { x: (self.x - 1) as u32, ..*self }),
    {
        Self { x: self.x - 1, ..*self }
    }

    pub fn right(&self) -> (r: Self)
        requires
            self.x < u32::MAX,
        ensures
            r == (Location { x: (self.x + 1) as u32, ..*self }),
    {
        Self { x: self.x + 1, ..*self }
    }

    pub fn front(&self) -> (r: Self)
        requires
            self.y < u32::MAX,
        ensures
            r == (Location { y: (self.y + 1) as u32, ..*self }),
    {
        Self { y: self.y + 1, ..*self }
    }

    pub fn back(&self) -> (r: Self)
        requires
            self.y >= 1,
        ensures
            r == (Location { y: (self.y - 1) as u32, ..*self }),
    {
        Self { y: self.y - 1, ..*self }
    }

    pub fn up(&self) -> (r: Self)
        requires
            self.z < u32::MAX,
        ensures
            r == (Location { z: (self.z + 1) as u32, ..*self }),
    {
        Self { z: self.z + 1, ..*self }
    }

    pub fn down(&self) -> (r: Self)
        requires
            self.z >= 1,
        ensures
            r == (Location { z: (self.z - 1) as u32, ..*self }),
    {
        Self { z: self.z - 1, ..*self }
    }

    /// Renders the cell; never mutates state.
    pub fn render(&self) -> (r: String)
        ensures
            r@ == location_render_spec(*self),
    {
        let mut s = String::new();
        s.append("{ \"x\": ");
        let sx = u32_to_string(self.x);
        s.append(sx.as_str());
        s.append(", \"y\": ");
        let sy = u32_to_string(self.y);
        s.append(sy.as_str());
        s.append(", \"z\": ");
        let sz = u32_to_string(self.z);
        s.append(sz.as_str());
        s.append(" }");
        proof {
            assert(s@ =~= location_render_spec(*self));
        }
        s
    }
}

} // verus!
