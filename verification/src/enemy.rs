//! Enemies and the archetypes they are spawned from.

use vstd::prelude::*;

use crate::rng::Rng;

verus! {

/// A template for a freshly spawned enemy's starting stats.
#[derive(Clone, Copy, PartialEq, Eq, Structural, Debug)]
pub enum EnemyArchetype {
    Rat,
    Goblin,
    Orc,
    Boss,
}

impl EnemyArchetype {
    pub open spec fn spec_is_boss(self) -> bool {
        self == EnemyArchetype::Boss
    }

    pub open spec fn spec_health(self) -> i32 {
        match self {
            EnemyArchetype::Rat => 3,
            EnemyArchetype::Goblin => 5,
            EnemyArchetype::Orc => 8,
            EnemyArchetype::Boss => 20,
        }
    }

    pub open spec fn spec_attack(self) -> i32 {
        match self {
            EnemyArchetype::Rat => 1,
            EnemyArchetype::Goblin => 2,
            EnemyArchetype::Orc => 3,
            EnemyArchetype::Boss => 4,
        }
    }

    /// Picks a spawn template: the boss archetype when `boss` holds, and
    /// one of the ordinary archetypes at random otherwise.
    pub fn pick(boss: bool, rng: &mut Rng) -> (r: EnemyArchetype)
        ensures
            r.spec_is_boss() == boss,
    {
        if boss {
            EnemyArchetype::Boss
        } else {
            match rng.next_below(3) {
                0 => EnemyArchetype::Rat,
                1 => EnemyArchetype::Goblin,
                _ => EnemyArchetype::Orc,
            }
        }
    }

    /// The enemy this archetype instantiates, at full health.
    pub open spec fn spec_fresh(self) -> Enemy {
        Enemy { archetype: self, health: self.spec_health(), attack: self.spec_attack() }
    }

    pub fn fresh(self) -> (r: Enemy)
        ensures
            r == self.spec_fresh(),
    {
        Enemy { archetype: self, health: self.health(), attack: self.attack() }
    }

    fn health(self) -> (r: i32)
        ensures
            r == self.spec_health(),
    {
        match self {
            EnemyArchetype::Rat => 3,
            EnemyArchetype::Goblin => 5,
            EnemyArchetype::Orc => 8,
            EnemyArchetype::Boss => 20,
        }
    }

    fn attack(self) -> (r: i32)
        ensures
            r == self.spec_attack(),
    {
        match self {
            EnemyArchetype::Rat => 1,
            EnemyArchetype::Goblin => 2,
            EnemyArchetype::Orc => 3,
            EnemyArchetype::Boss => 4,
        }
    }
}

/// A live enemy: its spawn template and current stats.
#[derive(Clone, Copy, PartialEq, Eq, Structural, Debug)]
pub struct Enemy {
    pub archetype: EnemyArchetype,
    pub health: i32,
    pub attack: i32,
}

impl Enemy {
    pub open spec fn spec_is_boss(self) -> bool {
        self.archetype.spec_is_boss()
    }

    pub fn is_boss(&self) -> (r: bool)
        ensures
            r == self.spec_is_boss(),
    {
        match self.archetype {
            EnemyArchetype::Boss => true,
            _ => false,
        }
    }
}

} // verus!
