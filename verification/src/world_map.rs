//! The sparse grid of generated rooms, with a "visited" overlay and
//! lazy room generation.
//!
//! A room exists for a location exactly when that cell has been
//! generated. Doors between two generated neighbours always agree: if a
//! room has a door toward its neighbour, the neighbour has the matching
//! door back. Generation enforces that at creation time; rooms never
//! change their doors afterwards.

use vstd::prelude::*;

use crate::geometry::{Bounds, Direction, Location};
use crate::rng::Rng;
use crate::room::{EncounterType, Room};
use crate::table::Table;

verus! {

/// Doors of neighbouring generated rooms agree with one another.
pub open spec fn doors_consistent(m: Map<Location, Room>) -> bool {
    forall|a: Location, d: Direction|
        m.contains_key(a) && a.can_offset(d) && m.contains_key(#[trigger] a.spec_add(d))
            ==> m[a].spec_door(d) == m[a.spec_add(d)].spec_door(d.spec_opposite())
}

/// The starting cell every playthrough opens on.
pub open spec fn spec_start_room() -> Room {
    Room {
        door_north: true,
        door_east: true,
        door_south: true,
        door_west: true,
        is_exit: false,
        encounter: None,
    }
}

pub struct WorldMap {
    pub rooms: Table<Room>,
    pub visited: Vec<Location>,
}

impl WorldMap {
    pub open spec fn wf(self) -> bool {
        &&& self.rooms.wf()
        &&& doors_consistent(self.rooms@)
    }

    pub open spec fn spec_visited(self, loc: Location) -> bool {
        self.visited@.contains(loc)
    }

    /// A map holding only the starting room, already visited.
    pub fn new() -> (r: WorldMap)
        ensures
            r.wf(),
            r.rooms@ == Map::<Location, Room>::empty().insert(Location(0, 0), spec_start_room()),
            forall|l: Location| r.spec_visited(l) <==> l == (Location(0, 0)),
    {
        let mut rooms: Table<Room> = Table::new();
        rooms.insert(
            Location(0, 0),
            Room {
                door_north: true,
                door_east: true,
                door_south: true,
                door_west: true,
                is_exit: false,
                encounter: None,
            },
        );
        let mut visited: Vec<Location> = Vec::new();
        visited.push(Location(0, 0));
        let r = WorldMap { rooms, visited };
        proof {
            let m = r.rooms@;
            assert forall|a: Location, d: Direction|
                m.contains_key(a) && a.can_offset(d) && m.contains_key(
                    #[trigger] a.spec_add(d),
                ) implies m[a].spec_door(d) == m[a.spec_add(d)].spec_door(d.spec_opposite()) by {
                a.lemma_step_back(d);
            }
            assert(forall|l: Location| r.visited@.contains(l) ==> l == (Location(0, 0)));
            assert(r.visited@[0] == (Location(0, 0)));
        }
        r
    }

    pub fn get(&self, loc: Location) -> (r: Option<Room>)
        requires
            self.wf(),
        ensures
            r == if self.rooms@.contains_key(loc) {
                Some(self.rooms@[loc])
            } else {
                None::<Room>
            },
    {
        self.rooms.get(loc)
    }

    /// Overwrites the room at a generated location. The replacement must
    /// keep the shape (doors and exit flag): only the encounter slot of a
    /// room may ever change.
    pub fn replace(&mut self, loc: Location, room: Room)
        requires
            old(self).wf(),
            old(self).rooms@.contains_key(loc),
            room.same_shape(old(self).rooms@[loc]),
        ensures
            final (self).wf(),
            final (self).rooms@ == old(self).rooms@.insert(loc, room),
            final (self).visited == old(self).visited,
    {
        self.rooms.insert(loc, room);
        proof {
            let m0 = old(self).rooms@;
            let m = self.rooms@;
            assert forall|a: Location, d: Direction|
                m.contains_key(a) && a.can_offset(d) && m.contains_key(
                    #[trigger] a.spec_add(d),
                ) implies m[a].spec_door(d) == m[a.spec_add(d)].spec_door(d.spec_opposite()) by {
                let b = a.spec_add(d);
                assert(m0.contains_key(a) && m0.contains_key(b));
                assert(m0[a].spec_door(d) == m0[b].spec_door(d.spec_opposite()));
                assert(m[a].spec_door(d) == m0[a].spec_door(d));
                assert(m[b].spec_door(d.spec_opposite()) == m0[b].spec_door(d.spec_opposite()));
            }
        }
    }

    /// Adds a newly generated room. Its doors must agree with every
    /// already-generated neighbour.
    pub fn insert_room(&mut self, loc: Location, room: Room)
        requires
            old(self).wf(),
            !old(self).rooms@.contains_key(loc),
            forall|d: Direction|
                loc.can_offset(d) && old(self).rooms@.contains_key(#[trigger] loc.spec_add(d))
                    ==> room.spec_door(d) == old(self).rooms@[loc.spec_add(d)].spec_door(
                    d.spec_opposite(),
                ),
        ensures
            final (self).wf(),
            final (self).rooms@ == old(self).rooms@.insert(loc, room),
            final (self).visited == old(self).visited,
    {
        self.rooms.insert(loc, room);
        proof {
            let m0 = old(self).rooms@;
            let m = self.rooms@;
            assert forall|a: Location, d: Direction|
                m.contains_key(a) && a.can_offset(d) && m.contains_key(
                    #[trigger] a.spec_add(d),
                ) implies m[a].spec_door(d) == m[a.spec_add(d)].spec_door(d.spec_opposite()) by {
                let b = a.spec_add(d);
                a.lemma_step_back(d);
                if a == loc && b == loc {
                    assert(false);
                } else if a == loc {
                    assert(m0.contains_key(b));
                    assert(room.spec_door(d) == m0[b].spec_door(d.spec_opposite()));
                } else if b == loc {
                    let dop = d.spec_opposite();
                    assert(loc.can_offset(dop) && loc.spec_add(dop) == a);
                    assert(m0.contains_key(loc.spec_add(dop)));
                    assert(room.spec_door(dop) == m0[a].spec_door(dop.spec_opposite()));
                    assert(dop.spec_opposite() == d);
                } else {
                    assert(m0.contains_key(a) && m0.contains_key(b));
                    assert(m0[a].spec_door(d) == m0[b].spec_door(d.spec_opposite()));
                }
            }
        }
    }

    pub fn mark_visited(&mut self, loc: Location)
        requires
            old(self).wf(),
        ensures
            final (self).wf(),
            final (self).rooms == old(self).rooms,
            forall|l: Location|
                final (self).spec_visited(l) <==> old(self).spec_visited(l) || l == loc,
    {
        if !self.is_visited(loc) {
            let ghost before = self.visited@;
            self.visited.push(loc);
            proof {
                assert forall|l: Location|
                    self.visited@.contains(l) <==> before.contains(l) || l == loc by {
                    if self.visited@.contains(l) {
                        let i = choose|i: int|
                            0 <= i < self.visited@.len() && self.visited@[i] == l;
                        if i < before.len() {
                            assert(before[i] == l);
                        }
                    }
                    if before.contains(l) {
                        let i = choose|i: int| 0 <= i < before.len() && before[i] == l;
                        assert(self.visited@[i] == l);
                    }
                    assert(self.visited@[before.len() as int] == loc);
                }
            }
        }
    }

    pub fn is_visited(&self, loc: Location) -> (r: bool)
        ensures
            r == self.spec_visited(loc),
    {
        let n = self.visited.len();
        let mut i: usize = 0;
        while i < n
            invariant
                i <= n,
                n == self.visited@.len(),
                forall|j: int| 0 <= j < i ==> self.visited@[j] != loc,
            decreases n - i,
        {
            if self.visited[i] == loc {
                return true;
            }
            i = i + 1;
        }
        false
    }

    /// Generates the room at `loc` if none exists yet; a second call for
    /// the same location is a no-op. Doors toward generated neighbours
    /// copy the neighbour's matching door, so the symmetry invariant is
    /// kept by construction; the rest of the room is drawn from `rng`.
    pub fn generate_room_at(&mut self, loc: Location, rng: &mut Rng)
        requires
            old(self).wf(),
            forall|d: Direction| loc.can_offset(d),
        ensures
            final (self).wf(),
            final (self).visited == old(self).visited,
            old(self).rooms@.contains_key(loc) ==> *final (self) == *old(self) && *final (rng)
                == *old(rng),
            !old(self).rooms@.contains_key(loc) ==> exists|r: Room|
                final (self).rooms@ == old(self).rooms@.insert(loc, r),
    {
        if self.rooms.contains(loc) {
            return ;
        }
        let north_nb = loc.offset_in_direction(Direction::North);
        let east_nb = loc.offset_in_direction(Direction::East);
        let south_nb = loc.offset_in_direction(Direction::South);
        let west_nb = loc.offset_in_direction(Direction::West);
        let door_north = match self.rooms.get(north_nb) {
            Some(r) => r.door(Direction::South),
            None => rng.next_below(4) != 0,
        };
        let door_east = match self.rooms.get(east_nb) {
            Some(r) => r.door(Direction::West),
            None => rng.next_below(4) != 0,
        };
        let door_south = match self.rooms.get(south_nb) {
            Some(r) => r.door(Direction::North),
            None => rng.next_below(4) != 0,
        };
        let door_west = match self.rooms.get(west_nb) {
            Some(r) => r.door(Direction::East),
            None => rng.next_below(4) != 0,
        };
        let is_exit = rng.next_below(32) == 0;
        let encounter = match rng.next_below(16) {
            0 | 1 => Some(EncounterType::Food),
            2 | 3 => Some(EncounterType::Treasure),
            4 => Some(EncounterType::Key),
            5 => Some(EncounterType::MapScroll),
            6 => Some(EncounterType::Chest),
            7 | 8 => Some(EncounterType::Monster),
            9 => Some(EncounterType::Boss),
            10 => Some(EncounterType::Merchant),
            _ => None,
        };
        let room = Room { door_north, door_east, door_south, door_west, is_exit, encounter };
        proof {
            assert forall|d: Direction|
                loc.can_offset(d) && self.rooms@.contains_key(#[trigger] loc.spec_add(d))
                    implies room.spec_door(d) == self.rooms@[loc.spec_add(d)].spec_door(
                d.spec_opposite(),
            ) by {
                match d {
                    Direction::North => {
                        assert(loc.spec_add(d) == north_nb);
                    },
                    Direction::East => {
                        assert(loc.spec_add(d) == east_nb);
                    },
                    Direction::South => {
                        assert(loc.spec_add(d) == south_nb);
                    },
                    Direction::West => {
                        assert(loc.spec_add(d) == west_nb);
                    },
                }
            }
        }
        self.insert_room(loc, room);
    }

    /// The tight bounding box over all generated locations.
    pub fn bounds(&self) -> (r: Bounds)
        requires
            self.wf(),
        ensures
            forall|k: Location| self.rooms@.contains_key(k) ==> r.spec_contains(k),
            r.is_empty ==> forall|k: Location| !self.rooms@.contains_key(k),
            !r.is_empty ==> exists|k: Location| self.rooms@.contains_key(k) && k.0 == r.min_x,
            !r.is_empty ==> exists|k: Location| self.rooms@.contains_key(k) && k.0 == r.max_x,
            !r.is_empty ==> exists|k: Location| self.rooms@.contains_key(k) && k.1 == r.min_y,
            !r.is_empty ==> exists|k: Location| self.rooms@.contains_key(k) && k.1 == r.max_y,
    {
        proof {
            crate::table::lemma_entries_agree(self.rooms.entries@);
        }
        let ghost s = self.rooms.entries@;
        let n = self.rooms.entries.len();
        let mut b = Bounds::empty();
        let mut i: usize = 0;
        while i < n
            invariant
                i <= n,
                n == s.len(),
                s == self.rooms.entries@,
                b.is_empty <==> i == 0,
                forall|j: int| 0 <= j < i ==> b.spec_contains((#[trigger] s[j]).0),
                !b.is_empty ==> exists|j: int| 0 <= j < i && (#[trigger] s[j]).0.0 == b.min_x,
                !b.is_empty ==> exists|j: int| 0 <= j < i && (#[trigger] s[j]).0.0 == b.max_x,
                !b.is_empty ==> exists|j: int| 0 <= j < i && (#[trigger] s[j]).0.1 == b.min_y,
                !b.is_empty ==> exists|j: int| 0 <= j < i && (#[trigger] s[j]).0.1 == b.max_y,
            decreases n - i,
        {
            b = b.cover(self.rooms.entries[i].0);
            i = i + 1;
        }
        proof {
            crate::table::lemma_entries_agree(s);
        }
        b
    }
}

} // verus!
