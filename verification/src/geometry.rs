//! Coordinate algebra: directions, grid locations, and bounding boxes.

use vstd::prelude::*;

verus! {

/// One of the four cardinal directions a player can move in.
#[derive(Clone, Copy, PartialEq, Eq, Structural, Debug)]
pub enum Direction {
    North,
    East,
    South,
    West,
}

impl Direction {
    /// The direction pointing back the way one came.
    pub open spec fn spec_opposite(self) -> Direction {
        match self {
            Direction::North => Direction::South,
            Direction::East => Direction::West,
            Direction::South => Direction::North,
            Direction::West => Direction::East,
        }
    }

    pub fn opposite(self) -> (r: Direction)
        ensures
            r == self.spec_opposite(),
    {
        match self {
            Direction::North => Direction::South,
            Direction::East => Direction::West,
            Direction::South => Direction::North,
            Direction::West => Direction::East,
        }
    }

    /// Horizontal displacement of one step in this direction.
    pub open spec fn spec_dx(self) -> int {
        match self {
            Direction::East => 1,
            Direction::West => -1,
            _ => 0,
        }
    }

    /// Vertical displacement of one step in this direction.
    pub open spec fn spec_dy(self) -> int {
        match self {
            Direction::North => 1,
            Direction::South => -1,
            _ => 0,
        }
    }
}

/// A cell on the infinite grid, identified by its signed coordinates.
#[derive(Clone, Copy, PartialEq, Eq, Structural, Debug)]
pub struct Location(pub i64, pub i64);

impl Location {
    /// Whether one step in direction `d` stays within the machine range
    /// of the coordinates.
    pub open spec fn can_offset(self, d: Direction) -> bool {
        i64::MIN <= self.0 + d.spec_dx() <= i64::MAX && i64::MIN <= self.1 + d.spec_dy()
            <= i64::MAX
    }

    /// The neighbouring cell one step in direction `d`.
    /// Meaningful only when `can_offset(d)` holds.
    pub open spec fn spec_add(self, d: Direction) -> Location {
        Location((self.0 + d.spec_dx()) as i64, (self.1 + d.spec_dy()) as i64)
    }

    pub fn offset_in_direction(self, d: Direction) -> (r: Location)
        requires
            self.can_offset(d),
        ensures
            r == self.spec_add(d),
    {
        match d {
            Direction::North => Location(self.0, self.1 + 1),
            Direction::East => Location(self.0 + 1, self.1),
            Direction::South => Location(self.0, self.1 - 1),
            Direction::West => Location(self.0 - 1, self.1),
        }
    }

    /// Stepping to a neighbour and back lands on the starting cell.
    pub proof fn lemma_step_back(self, d: Direction)
        requires
            self.can_offset(d),
        ensures
            self.spec_add(d).can_offset(d.spec_opposite()),
            self.spec_add(d).spec_add(d.spec_opposite()) == self,
            self.spec_add(d) != self,
    {
    }
}

/// An axis-aligned bounding box over generated cells; `is_empty` marks the
/// box that covers nothing.
#[derive(Clone, Copy, PartialEq, Eq, Structural, Debug)]
pub struct Bounds {
    pub is_empty: bool,
    pub min_x: i64,
    pub min_y: i64,
    pub max_x: i64,
    pub max_y: i64,
}

impl Bounds {
    pub open spec fn spec_contains(self, loc: Location) -> bool {
        &&& !self.is_empty
        &&& self.min_x <= loc.0 <= self.max_x
        &&& self.min_y <= loc.1 <= self.max_y
    }

    /// The box grown just enough to cover `loc` as well.
    pub open spec fn spec_cover(self, loc: Location) -> Bounds {
        if self.is_empty {
            Bounds { is_empty: false, min_x: loc.0, min_y: loc.1, max_x: loc.0, max_y: loc.1 }
        } else {
            Bounds {
                is_empty: false,
                min_x: if loc.0 < self.min_x {
                    loc.0
                } else {
                    self.min_x
                },
                min_y: if loc.1 < self.min_y {
                    loc.1
                } else {
                    self.min_y
                },
                max_x: if loc.0 > self.max_x {
                    loc.0
                } else {
                    self.max_x
                },
                max_y: if loc.1 > self.max_y {
                    loc.1
                } else {
                    self.max_y
                },
            }
        }
    }

    pub fn empty() -> (r: Bounds)
        ensures
            r.is_empty,
            forall|loc: Location| !r.spec_contains(loc),
    {
        Bounds { is_empty: true, min_x: 0, min_y: 0, max_x: 0, max_y: 0 }
    }

    pub fn cover(self, loc: Location) -> (r: Bounds)
        ensures
            r == self.spec_cover(loc),
            r.spec_contains(loc),
            forall|l: Location| self.spec_contains(l) ==> r.spec_contains(l),
    {
        if self.is_empty {
            Bounds { is_empty: false, min_x: loc.0, min_y: loc.1, max_x: loc.0, max_y: loc.1 }
        } else {
            Bounds {
                is_empty: false,
                min_x: if loc.0 < self.min_x {
                    loc.0
                } else {
                    self.min_x
                },
                min_y: if loc.1 < self.min_y {
                    loc.1
                } else {
                    self.min_y
                },
                max_x: if loc.0 > self.max_x {
                    loc.0
                } else {
                    self.max_x
                },
                max_y: if loc.1 > self.max_y {
                    loc.1
                } else {
                    self.max_y
                },
            }
        }
    }

    /// Widens the box by `w` columns on each side and `h` rows on each side.
    /// An empty box stays empty.
    pub fn expand(self, w: i64, h: i64) -> (r: Bounds)
        requires
            0 <= w,
            0 <= h,
            !self.is_empty ==> i64::MIN <= self.min_x - w && self.max_x + w <= i64::MAX
                && i64::MIN <= self.min_y - h && self.max_y + h <= i64::MAX,
        ensures
            self.is_empty ==> r == self,
            !self.is_empty ==> r == (Bounds {
                is_empty: false,
                min_x: (self.min_x - w) as i64,
                min_y: (self.min_y - h) as i64,
                max_x: (self.max_x + w) as i64,
                max_y: (self.max_y + h) as i64,
            }),
    {
        if self.is_empty {
            self
        } else {
            Bounds {
                is_empty: false,
                min_x: self.min_x - w,
                min_y: self.min_y - h,
                max_x: self.max_x + w,
                max_y: self.max_y + h,
            }
        }
    }
}

} // verus!
