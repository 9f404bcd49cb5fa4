//! The player: position, combat stats, survival clock and inventory.

use vstd::prelude::*;

use crate::geometry::Location;
use crate::inventory::{Inventory, Item};

verus! {

/// Hunger is reset to this value whenever the player eats.
pub const FULL_HUNGER: i32 = 10;

pub struct Player {
    pub location: Location,
    pub health: i32,
    pub hunger: i32,
    pub inventory: Inventory,
}

impl Player {
    /// A fresh player at the origin with starting rations.
    pub fn new() -> (r: Player)
        ensures
            r.location == (Location(0, 0)),
            r.health == 15,
            r.hunger == FULL_HUNGER,
            r.inventory.spec_count(Item::Food) == 20,
            r.inventory.spec_count(Item::Treasure) == 5,
            r.inventory.spec_count(Item::Key) == 0,
            r.inventory.spec_count(Item::MapScroll) == 0,
    {
        let mut inventory = Inventory::new();
        inventory.add_n(Item::Food, 20);
        inventory.add_n(Item::Treasure, 5);
        Player { location: Location(0, 0), health: 15, hunger: FULL_HUNGER, inventory }
    }

    pub fn attack(&self) -> (r: i32)
        ensures
            r == 2,
    {
        2
    }

    pub fn defense(&self) -> (r: i32)
        ensures
            r == 0,
    {
        0
    }

    pub fn is_dead(&self) -> (r: bool)
        ensures
            r == (self.health <= 0),
    {
        self.health <= 0
    }
}

} // verus!
