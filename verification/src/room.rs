//! Static description of one map cell: doors, exit flag, optional encounter.

use vstd::prelude::*;

use crate::geometry::Direction;

verus! {

/// The closed set of events that can be attached to a room.
#[derive(Clone, Copy, PartialEq, Eq, Structural, Debug)]
pub enum EncounterType {
    Food,
    Treasure,
    Key,
    MapScroll,
    Chest,
    Monster,
    Boss,
    Merchant,
}

impl EncounterType {
    /// Persistent encounters stay on their room after resolution, so the
    /// player can trigger them again; the rest are cleared once resolved.
    pub open spec fn spec_is_persistent(self) -> bool {
        match self {
            EncounterType::Monster => true,
            EncounterType::Boss => true,
            EncounterType::Merchant => true,
            _ => false,
        }
    }

    pub fn is_persistent(self) -> (r: bool)
        ensures
            r == self.spec_is_persistent(),
    {
        match self {
            EncounterType::Monster => true,
            EncounterType::Boss => true,
            EncounterType::Merchant => true,
            _ => false,
        }
    }
}

/// Per-cell static data. Doors are fixed at generation time and never
/// change; only the `encounter` field may be cleared after resolution.
#[derive(Clone, Copy, PartialEq, Eq, Debug)]
pub struct Room {
    pub door_north: bool,
    pub door_east: bool,
    pub door_south: bool,
    pub door_west: bool,
    pub is_exit: bool,
    pub encounter: Option<EncounterType>,
}

impl Room {
    pub open spec fn spec_door(self, d: Direction) -> bool {
        match d {
            Direction::North => self.door_north,
            Direction::East => self.door_east,
            Direction::South => self.door_south,
            Direction::West => self.door_west,
        }
    }

    pub fn door(self, d: Direction) -> (r: bool)
        ensures
            r == self.spec_door(d),
    {
        match d {
            Direction::North => self.door_north,
            Direction::East => self.door_east,
            Direction::South => self.door_south,
            Direction::West => self.door_west,
        }
    }

    /// This room with its encounter slot emptied.
    pub open spec fn spec_cleared(self) -> Room {
        Room { encounter: None, ..self }
    }

    /// The two rooms differ at most in their encounter slot.
    pub open spec fn same_shape(self, other: Room) -> bool {
        &&& self.door_north == other.door_north
        &&& self.door_east == other.door_east
        &&& self.door_south == other.door_south
        &&& self.door_west == other.door_west
        &&& self.is_exit == other.is_exit
    }
}

} // verus!
