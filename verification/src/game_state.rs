//! The single source of truth for one playthrough: map, player and the
//! enemy registry, together with the movement/encounter state machine.

use vstd::prelude::*;

use crate::enemy::{Enemy, EnemyArchetype};
use crate::geometry::{Direction, Location};
use crate::inventory::{Inventory, Item};
use crate::player::{Player, FULL_HUNGER};
use crate::rng::Rng;
use crate::room::{EncounterType, Room};
use crate::table::Table;
use crate::world_map::WorldMap;

verus! {

/// The seed a fresh game starts from; replace `rng` to vary a run.
pub const DEFAULT_SEED: u64 = 0x853c49e6748fea9b;

/// What one move command came to.
#[derive(Clone, Copy, PartialEq, Eq, Structural, Debug)]
pub enum MoveOutcome {
    /// No door that way: nothing changed.
    Blocked,
    /// The move finished with no hand-off event.
    Continued,
    /// The player reached an exit room.
    Win,
    /// The player starved.
    Lose,
    /// Control passes to the battle sub-mode for the enemy at this cell.
    EnterBattle(Location),
    /// Control passes to the merchant sub-mode.
    EnterMerchant,
}

/// `b` is `a` plus exactly one unit of `g`.
pub open spec fn gained_one(a: Inventory, b: Inventory, g: Item) -> bool {
    forall|it: Item|
        b.spec_count(it) == a.spec_count(it) + (if it == g {
            1int
        } else {
            0int
        })
}

/// `b` is `a` after opening a chest: one Key spent, and between one and
/// three distinct items out of Food, Treasure and Key gained.
pub open spec fn chest_opened(a: Inventory, b: Inventory) -> bool {
    let df = b.spec_count(Item::Food) - a.spec_count(Item::Food);
    let dt = b.spec_count(Item::Treasure) - a.spec_count(Item::Treasure);
    let dk = b.spec_count(Item::Key) - (a.spec_count(Item::Key) - 1);
    &&& a.spec_count(Item::Key) >= 1
    &&& 0 <= df <= 1
    &&& 0 <= dt <= 1
    &&& 0 <= dk <= 1
    &&& df + dt + dk >= 1
    &&& b.spec_count(Item::MapScroll) == a.spec_count(Item::MapScroll)
}

/// What resolving a loot-type encounter does to the inventory.
pub open spec fn loot_effect(a: Inventory, b: Inventory, e: EncounterType) -> bool {
    match e {
        EncounterType::Food => gained_one(a, b, Item::Food),
        EncounterType::Treasure => gained_one(a, b, Item::Treasure),
        EncounterType::Key => gained_one(a, b, Item::Key),
        EncounterType::MapScroll => gained_one(a, b, Item::MapScroll),
        EncounterType::Chest => if a.spec_count(Item::Key) >= 1 {
            chest_opened(a, b)
        } else {
            b == a
        },
        _ => false,
    }
}

/// The registry after ensuring a live enemy at `loc`: an already present
/// enemy is kept (idempotent spawn); otherwise exactly one fresh enemy
/// with the given boss flag is registered.
pub open spec fn battle_spawned(
    pre: Map<Location, Enemy>,
    post: Map<Location, Enemy>,
    loc: Location,
    boss: bool,
) -> bool {
    &&& post.contains_key(loc)
    &&& if pre.contains_key(loc) {
        post == pre
    } else {
        &&& post == pre.insert(loc, post[loc])
        &&& post[loc].spec_is_boss() == boss
        &&& post[loc] == post[loc].archetype.spec_fresh()
    }
}

/// The inventory after the meal step of a move: one Food consumed when
/// any is held, nothing otherwise.
pub open spec fn meal_applied(a: Inventory, b: Inventory) -> bool {
    if a.spec_count(Item::Food) >= 1 {
        forall|it: Item|
            b.spec_count(it) == a.spec_count(it) - (if it == Item::Food {
                1int
            } else {
                0int
            })
    } else {
        b == a
    }
}

/// What `resolve_encounter` promises, per encounter type.
pub open spec fn resolve_effect(
    pre: GameState,
    post: GameState,
    e: EncounterType,
    r: MoveOutcome,
) -> bool {
    let loc = pre.player.location;
    match e {
        EncounterType::Monster => {
            &&& post.player.inventory == pre.player.inventory
            &&& battle_spawned(pre.enemies@, post.enemies@, loc, false)
            &&& r == MoveOutcome::EnterBattle(loc)
        },
        EncounterType::Boss => {
            &&& post.player.inventory == pre.player.inventory
            &&& battle_spawned(pre.enemies@, post.enemies@, loc, true)
            &&& r == MoveOutcome::EnterBattle(loc)
        },
        EncounterType::Merchant => {
            &&& post.player.inventory == pre.player.inventory
            &&& post.enemies == pre.enemies
            &&& r == MoveOutcome::EnterMerchant
        },
        _ => {
            &&& loot_effect(pre.player.inventory, post.player.inventory, e)
            &&& post.enemies == pre.enemies
            &&& r == MoveOutcome::Continued
        },
    }
}

/// Resolving a monster or boss encounter twice in a row, with no defeat
/// in between, registers exactly one enemy at that location: the second
/// resolution leaves the registry untouched.
pub proof fn lemma_spawn_idempotent(
    pre: Map<Location, Enemy>,
    mid: Map<Location, Enemy>,
    post: Map<Location, Enemy>,
    loc: Location,
    boss1: bool,
    boss2: bool,
)
    requires
        battle_spawned(pre, mid, loc, boss1),
        battle_spawned(mid, post, loc, boss2),
    ensures
        post == mid,
        post[loc] == mid[loc],
{
}

pub struct GameState {
    pub map: WorldMap,
    pub player: Player,
    pub enemies: Table<Enemy>,
    pub rng: Rng,
}

impl GameState {
    /// The state is internally consistent and the player stands on a
    /// generated room.
    pub open spec fn wf(self) -> bool {
        &&& self.map.wf()
        &&& self.map.rooms@.contains_key(self.player.location)
        &&& self.enemies.wf()
    }

    /// The room under the player's feet.
    pub open spec fn cur_room(self) -> Room {
        self.map.rooms@[self.player.location]
    }

    pub fn new() -> (r: GameState)
        ensures
            r.wf(),
            r.map.rooms@ == Map::<Location, Room>::empty().insert(
                Location(0, 0),
                crate::world_map::spec_start_room(),
            ),
            forall|l: Location| r.map.spec_visited(l) <==> l == (Location(0, 0)),
            r.player.location == (Location(0, 0)),
            r.player.health == 15,
            r.player.hunger == FULL_HUNGER,
            r.player.inventory.spec_count(Item::Food) == 20,
            r.player.inventory.spec_count(Item::Treasure) == 5,
            r.player.inventory.spec_count(Item::Key) == 0,
            r.player.inventory.spec_count(Item::MapScroll) == 0,
            r.enemies@ == Map::<Location, Enemy>::empty(),
            r.rng.state == DEFAULT_SEED,
    {
        GameState {
            map: WorldMap::new(),
            player: Player::new(),
            enemies: Table::new(),
            rng: Rng::new(DEFAULT_SEED),
        }
    }

    /// Moves the player one cell if the current room has a door that
    /// way, generating the destination room on first entry. Food,
    /// hunger, visited marks and encounters are the caller's turn logic
    /// (`try_move`); this is only the membership/door check and the
    /// location update.
    pub fn try_move_player(&mut self, dir: Direction) -> (r: bool)
        requires
            old(self).wf(),
            i64::MIN + 2 <= old(self).player.location.0 <= i64::MAX - 2,
            i64::MIN + 2 <= old(self).player.location.1 <= i64::MAX - 2,
        ensures
            final (self).wf(),
            r == old(self).cur_room().spec_door(dir),
            !r ==> *final (self) == *old(self),
            r ==> {
                let dest = old(self).player.location.spec_add(dir);
                &&& final (self).player.location == dest
                &&& final (self).player.health == old(self).player.health
                &&& final (self).player.hunger == old(self).player.hunger
                &&& final (self).player.inventory == old(self).player.inventory
                &&& final (self).enemies == old(self).enemies
                &&& final (self).map.visited == old(self).map.visited
                &&& final (self).map.rooms@.contains_key(dest)
                &&& final (self).map.rooms@[dest].spec_door(dir.spec_opposite())
                &&& (old(self).map.rooms@.contains_key(dest) ==> final (self).map
                    == old(self).map && final (self).map.rooms@[dest] == old(
                    self,
                ).map.rooms@[dest] && final (self).rng == old(self).rng)
                &&& (!old(self).map.rooms@.contains_key(dest) ==> final (self).map.rooms@ == old(
                    self,
                ).map.rooms@.insert(dest, final (self).map.rooms@[dest]))
            },
    {
        let here = self.player.location;
        let room = match self.map.get(here) {
            Some(r) => r,
            None => vstd::pervasive::unreached(),
        };
        if room.door(dir) {
            let dest = here.offset_in_direction(dir);
            self.player.location = dest;
            proof {
                assert(forall|d: Direction| dest.can_offset(d));
            }
            self.map.generate_room_at(dest, &mut self.rng);
            proof {
                if !old(self).map.rooms@.contains_key(dest) {
                    let nr = choose|nr: Room|
                        self.map.rooms@ == old(self).map.rooms@.insert(dest, nr);
                    assert(self.map.rooms@[dest] == nr);
                }
                // the door back toward the origin follows from door symmetry
                here.lemma_step_back(dir);
                assert(self.map.rooms@.contains_key(here));
                assert(self.map.rooms@[here].spec_door(dir) == self.map.rooms@[dest].spec_door(
                    dir.spec_opposite(),
                ));
            }
            true
        } else {
            false
        }
    }

    /// Applies one encounter at the player's location: loot goes to the
    /// inventory, a chest spends a Key for one to three distinct finds,
    /// a monster or boss registers an enemy (at most one) and hands
    /// control to the battle sub-mode, a merchant hands control over
    /// with no state change. Clearing non-persistent encounters off the
    /// map is the caller's job.
    pub fn resolve_encounter(&mut self, e: EncounterType) -> (r: MoveOutcome)
        requires
            old(self).wf(),
            forall|it: Item| old(self).player.inventory.spec_count(it) < usize::MAX,
        ensures
            final (self).wf(),
            final (self).map == old(self).map,
            final (self).player.location == old(self).player.location,
            final (self).player.health == old(self).player.health,
            final (self).player.hunger == old(self).player.hunger,
            resolve_effect(*old(self), *final (self), e, r),
    {
        let loc = self.player.location;
        match e {
            EncounterType::Food => {
                self.player.inventory.add(Item::Food);
                MoveOutcome::Continued
            },
            EncounterType::Treasure => {
                self.player.inventory.add(Item::Treasure);
                MoveOutcome::Continued
            },
            EncounterType::Key => {
                self.player.inventory.add(Item::Key);
                MoveOutcome::Continued
            },
            EncounterType::MapScroll => {
                self.player.inventory.add(Item::MapScroll);
                MoveOutcome::Continued
            },
            EncounterType::Chest => {
                if self.player.inventory.take(Item::Key) {
                    let ghost after_key = self.player.inventory;
                    let drawn = self.rng.next_below(4) + 1;
                    let granted: u64 = if drawn > 3 {
                        3
                    } else {
                        drawn
                    };
                    let left_out = self.rng.next_below(3);
                    let mut got_food: bool = false;
                    let mut got_treasure: bool = false;
                    let mut got_key: bool = false;
                    if granted == 1 {
                        if left_out == 0 {
                            got_food = true;
                        } else if left_out == 1 {
                            got_treasure = true;
                        } else {
                            got_key = true;
                        }
                    } else if granted == 2 {
                        got_food = left_out != 0;
                        got_treasure = left_out != 1;
                        got_key = left_out != 2;
                    } else {
                        got_food = true;
                        got_treasure = true;
                        got_key = true;
                    }
                    if got_food {
                        self.player.inventory.add(Item::Food);
                    }
                    if got_treasure {
                        self.player.inventory.add(Item::Treasure);
                    }
                    if got_key {
                        self.player.inventory.add(Item::Key);
                    }
                    proof {
                        let f: int = if got_food {
                            1
                        } else {
                            0
                        };
                        let t: int = if got_treasure {
                            1
                        } else {
                            0
                        };
                        let k: int = if got_key {
                            1
                        } else {
                            0
                        };
                        let a = old(self).player.inventory;
                        let b = self.player.inventory;
                        assert(0 <= f <= 1 && 0 <= t <= 1 && 0 <= k <= 1 && f + t + k >= 1
                            && b.spec_count(Item::Food) == a.spec_count(Item::Food) + f
                            && b.spec_count(Item::Treasure) == a.spec_count(Item::Treasure) + t
                            && b.spec_count(Item::Key) == a.spec_count(Item::Key) - 1 + k
                            && b.spec_count(Item::MapScroll) == a.spec_count(Item::MapScroll));
                    }
                    MoveOutcome::Continued
                } else {
                    MoveOutcome::Continued
                }
            },
            EncounterType::Monster => {
                if self.get_enemy(loc).is_none() {
                    self.spawn_enemy_at(loc, false);
                }
                MoveOutcome::EnterBattle(loc)
            },
            EncounterType::Boss => {
                if self.get_enemy(loc).is_none() {
                    self.spawn_enemy_at(loc, true);
                }
                MoveOutcome::EnterBattle(loc)
            },
            EncounterType::Merchant => { MoveOutcome::EnterMerchant },
        }
    }

    /// Runs one full move command: door check, location update, lazy
    /// generation of the destination, the meal/hunger tick, the visited
    /// mark, the exit check, and encounter resolution with cleanup of
    /// non-persistent encounters. Each numbered step of the turn either
    /// completes or short-circuits into the outcome it returns.
    pub fn try_move(&mut self, dir: Direction) -> (r: MoveOutcome)
        requires
            old(self).wf(),
            i64::MIN + 2 <= old(self).player.location.0 <= i64::MAX - 2,
            i64::MIN + 2 <= old(self).player.location.1 <= i64::MAX - 2,
            old(self).player.hunger > i32::MIN,
            forall|it: Item| old(self).player.inventory.spec_count(it) < usize::MAX,
        ensures
            ({
                let pre = *old(self);
                let post = *final (self);
                let moved = pre.cur_room().spec_door(dir);
                let dest = pre.player.location.spec_add(dir);
                let ate = pre.player.inventory.spec_count(Item::Food) >= 1;
                let survived = moved && (ate || pre.player.hunger > 1);
                let pre_inv = pre.player.inventory;
                let post_inv = post.player.inventory;
                &&& post.wf()
                &&& (r == MoveOutcome::Blocked <==> !moved)
                &&& (!moved ==> post == pre)
                &&& (moved ==> {
                    &&& post.player.location == dest
                    &&& post.player.health == pre.player.health
                    &&& post.map.rooms@.contains_key(dest)
                    &&& post.map.rooms@[dest].spec_door(dir.spec_opposite())
                    &&& (forall|l: Location|
                        l != dest && pre.map.rooms@.contains_key(l)
                            ==> post.map.rooms@.contains_key(l) && post.map.rooms@[l]
                            == pre.map.rooms@[l])
                    &&& (forall|l: Location|
                        post.map.rooms@.contains_key(l) ==> l == dest
                            || pre.map.rooms@.contains_key(l))
                    &&& (pre.map.rooms@.contains_key(dest)
                        ==> post.map.rooms@[dest].same_shape(pre.map.rooms@[dest]))
                    &&& (ate ==> post.player.hunger == FULL_HUNGER)
                    &&& (!ate ==> post.player.hunger == pre.player.hunger - 1)
                })
                &&& (r == MoveOutcome::Lose <==> moved && !ate && pre.player.hunger <= 1)
                &&& (r == MoveOutcome::Lose ==> {
                    &&& post_inv == pre_inv
                    &&& post.enemies == pre.enemies
                    &&& (forall|l: Location|
                        post.map.spec_visited(l) <==> pre.map.spec_visited(l))
                    &&& (pre.map.rooms@.contains_key(dest) ==> post.map.rooms == pre.map.rooms)
                })
                &&& (survived ==> forall|l: Location|
                    post.map.spec_visited(l) <==> pre.map.spec_visited(l) || l == dest)
                &&& (r == MoveOutcome::Win <==> survived && post.map.rooms@[dest].is_exit)
                &&& (r == MoveOutcome::Win ==> {
                    &&& meal_applied(pre_inv, post_inv)
                    &&& post.enemies == pre.enemies
                    &&& (pre.map.rooms@.contains_key(dest) ==> post.map.rooms == pre.map.rooms)
                })
                &&& (r is EnterBattle ==> r == MoveOutcome::EnterBattle(dest))
                &&& (r == MoveOutcome::EnterBattle(dest) <==> survived
                    && !post.map.rooms@[dest].is_exit && (post.map.rooms@[dest].encounter
                    == Some(EncounterType::Monster) || post.map.rooms@[dest].encounter == Some(
                    EncounterType::Boss,
                )))
                &&& (r == MoveOutcome::EnterBattle(dest) ==> {
                    &&& meal_applied(pre_inv, post_inv)
                    &&& battle_spawned(
                        pre.enemies@,
                        post.enemies@,
                        dest,
                        post.map.rooms@[dest].encounter == Some(EncounterType::Boss),
                    )
                    &&& (pre.map.rooms@.contains_key(dest) ==> post.map.rooms == pre.map.rooms)
                })
                &&& (r == MoveOutcome::EnterMerchant <==> survived
                    && !post.map.rooms@[dest].is_exit && post.map.rooms@[dest].encounter == Some(
                    EncounterType::Merchant,
                ))
                &&& (r == MoveOutcome::EnterMerchant ==> {
                    &&& meal_applied(pre_inv, post_inv)
                    &&& post.enemies == pre.enemies
                    &&& (pre.map.rooms@.contains_key(dest) ==> post.map.rooms == pre.map.rooms)
                })
                &&& (r == MoveOutcome::Continued <==> survived && !post.map.rooms@[dest].is_exit
                    && post.map.rooms@[dest].encounter is None)
                &&& (r == MoveOutcome::Continued && pre.map.rooms@.contains_key(dest)
                    ==> match pre.map.rooms@[dest].encounter {
                    None => {
                        &&& meal_applied(pre_inv, post_inv)
                        &&& post.enemies == pre.enemies
                        &&& post.map.rooms == pre.map.rooms
                    },
                    Some(e) => {
                        &&& !e.spec_is_persistent()
                        &&& exists|mid: Inventory|
                            #[trigger] meal_applied(pre_inv, mid) && loot_effect(
                                mid,
                                post_inv,
                                e,
                            )
                        &&& post.enemies@ == pre.enemies@.remove(dest)
                        &&& post.map.rooms@ == pre.map.rooms@.insert(
                            dest,
                            pre.map.rooms@[dest].spec_cleared(),
                        )
                    },
                })
                &&& (r == MoveOutcome::Continued && !pre.map.rooms@.contains_key(dest) ==> {
                    &&& exists|mid: Inventory|
                        #[trigger] meal_applied(pre_inv, mid) && (post_inv == mid || loot_effect(
                            mid,
                            post_inv,
                            EncounterType::Food,
                        ) || loot_effect(mid, post_inv, EncounterType::Treasure) || loot_effect(
                            mid,
                            post_inv,
                            EncounterType::Key,
                        ) || loot_effect(mid, post_inv, EncounterType::MapScroll) || loot_effect(
                            mid,
                            post_inv,
                            EncounterType::Chest,
                        ))
                    &&& (post.enemies == pre.enemies || post.enemies@ == pre.enemies@.remove(
                        dest,
                    ))
                })
            }),
    {
        let moved = self.try_move_player(dir);
        if !moved {
            return MoveOutcome::Blocked;
        }
        let dest = self.player.location;
        let ate = self.player.inventory.take(Item::Food);
        if ate {
            self.player.hunger = FULL_HUNGER;
        } else {
            self.player.hunger = self.player.hunger - 1;
            if self.player.hunger <= 0 {
                return MoveOutcome::Lose;
            }
        }
        let ghost mid_inv = self.player.inventory;
        proof {
            assert(meal_applied(old(self).player.inventory, mid_inv));
        }
        let ghost pre_mark = self.map;
        self.map.mark_visited(dest);
        proof {
            assert forall|l: Location|
                self.map.spec_visited(l) <==> old(self).map.spec_visited(l) || l == dest by {
                assert(pre_mark.visited == old(self).map.visited);
                assert(pre_mark.spec_visited(l) == old(self).map.spec_visited(l));
            }
        }
        let ghost marked = self.map;
        let room = match self.map.get(dest) {
            Some(r) => r,
            None => vstd::pervasive::unreached(),
        };
        if room.is_exit {
            return MoveOutcome::Win;
        }
        match room.encounter {
            None => MoveOutcome::Continued,
            Some(e) => {
                let out = self.resolve_encounter(e);
                if !e.is_persistent() {
                    self.remove_encounter_at(dest);
                }
                proof {
                    if !e.spec_is_persistent() {
                        assert(self.map.rooms@[dest].encounter is None);
                    }
                    assert forall|l: Location|
                        self.map.spec_visited(l) <==> old(self).map.spec_visited(l) || l
                            == dest by {
                        assert(self.map.visited == marked.visited);
                        assert(self.map.spec_visited(l) == marked.spec_visited(l));
                        assert(marked.spec_visited(l) <==> old(self).map.spec_visited(l) || l
                            == dest);
                    }
                }
                out
            },
        }
    }

    /// Clears the encounter slot of the room at `loc` (if one is
    /// generated there) and drops any enemy registered at `loc`.
    pub fn remove_encounter_at(&mut self, loc: Location)
        requires
            old(self).wf(),
        ensures
            final (self).wf(),
            final (self).player == old(self).player,
            final (self).rng == old(self).rng,
            final (self).map.visited == old(self).map.visited,
            old(self).map.rooms@.contains_key(loc) ==> final (self).map.rooms@ == old(
                self,
            ).map.rooms@.insert(loc, old(self).map.rooms@[loc].spec_cleared()),
            !old(self).map.rooms@.contains_key(loc) ==> final (self).map.rooms == old(
                self,
            ).map.rooms,
            final (self).enemies@ == old(self).enemies@.remove(loc),
    {
        match self.map.get(loc) {
            Some(room) => {
                let cleared = Room { encounter: None, ..room };
                self.map.replace(loc, cleared);
            },
            None => {},
        }
        self.enemies.remove(loc);
    }

    /// Registers a fresh enemy at `loc`, spawned from an archetype that
    /// matches the `boss` flag; an enemy already there is overwritten.
    pub fn spawn_enemy_at(&mut self, loc: Location, boss: bool)
        requires
            old(self).wf(),
        ensures
            final (self).wf(),
            final (self).map == old(self).map,
            final (self).player == old(self).player,
            final (self).enemies@.contains_key(loc),
            final (self).enemies@ == old(self).enemies@.insert(loc, final (self).enemies@[loc]),
            final (self).enemies@[loc].spec_is_boss() == boss,
            final (self).enemies@[loc] == final (self).enemies@[loc].archetype.spec_fresh(),
    {
        let archetype = EnemyArchetype::pick(boss, &mut self.rng);
        self.enemies.insert(loc, archetype.fresh());
    }

    pub fn get_enemy(&self, loc: Location) -> (r: Option<Enemy>)
        requires
            self.wf(),
        ensures
            r == if self.enemies@.contains_key(loc) {
                Some(self.enemies@[loc])
            } else {
                None::<Enemy>
            },
    {
        self.enemies.get(loc)
    }

    pub fn update_enemy(&mut self, loc: Location, enemy: Enemy)
        requires
            old(self).wf(),
        ensures
            final (self).wf(),
            final (self).map == old(self).map,
            final (self).player == old(self).player,
            final (self).enemies@ == old(self).enemies@.insert(loc, enemy),
    {
        self.enemies.insert(loc, enemy);
    }
}

} // verus!
