use dungeon_core::game_state::{GameState, MoveOutcome};
use dungeon_core::geometry::{Direction, Location};
use dungeon_core::inventory::Item;
use dungeon_core::room::{EncounterType, Room};

fn quiet_room() -> Room {
    Room {
        door_north: false,
        door_east: false,
        door_south: true,
        door_west: false,
        is_exit: false,
        encounter: None,
    }
}

#[test]
fn fresh_state_matches_start_values() {
    let gs = GameState::new();
    assert_eq!(gs.player.location, Location(0, 0));
    assert_eq!(gs.player.health, 15);
    assert_eq!(gs.player.hunger, 10);
    assert_eq!(gs.player.inventory.count(Item::Food), 20);
    assert_eq!(gs.player.inventory.count(Item::Treasure), 5);
    assert_eq!(gs.player.inventory.count(Item::Key), 0);
    assert_eq!(gs.player.inventory.count(Item::MapScroll), 0);
    assert!(gs.enemies.entries.is_empty());
    assert!(!gs.player.is_dead());
    assert_eq!(gs.player.attack(), 2);
    assert_eq!(gs.player.defense(), 0);
}

#[test]
fn move_into_quiet_room_continues_and_eats() {
    let mut gs = GameState::new();
    gs.map.insert_room(Location(0, 1), quiet_room());
    let outcome = gs.try_move(Direction::North);
    assert_eq!(outcome, MoveOutcome::Continued);
    assert_eq!(gs.player.location, Location(0, 1));
    assert_eq!(gs.player.hunger, 10);
    assert_eq!(gs.player.inventory.count(Item::Food), 19);
    let dest = gs.map.get(Location(0, 1)).expect("destination must exist after the move");
    assert!(dest.door_south);
    assert!(gs.map.is_visited(Location(0, 1)));
}

#[test]
fn blocked_move_changes_nothing() {
    let mut gs = GameState::new();
    gs.map.insert_room(Location(0, 1), quiet_room());
    assert_eq!(gs.try_move(Direction::North), MoveOutcome::Continued);
    // the quiet room has no east door
    let outcome = gs.try_move(Direction::East);
    assert_eq!(outcome, MoveOutcome::Blocked);
    assert_eq!(gs.player.location, Location(0, 1));
    assert_eq!(gs.player.hunger, 10);
    assert_eq!(gs.player.inventory.count(Item::Food), 19);
}

#[test]
fn moving_without_food_decrements_hunger() {
    let mut gs = GameState::new();
    gs.map.insert_room(Location(0, 1), quiet_room());
    assert!(gs.player.inventory.take_n(Item::Food, 20));
    let outcome = gs.try_move(Direction::North);
    assert_eq!(outcome, MoveOutcome::Continued);
    assert_eq!(gs.player.hunger, 9);
}

#[test]
fn eating_resets_hunger_to_ten() {
    let mut gs = GameState::new();
    gs.map.insert_room(Location(0, 1), quiet_room());
    gs.player.hunger = 3;
    let outcome = gs.try_move(Direction::North);
    assert_eq!(outcome, MoveOutcome::Continued);
    assert_eq!(gs.player.hunger, 10);
    assert_eq!(gs.player.inventory.count(Item::Food), 19);
}

#[test]
fn starving_move_loses() {
    let mut gs = GameState::new();
    gs.map.insert_room(Location(0, 1), quiet_room());
    assert!(gs.player.inventory.take_n(Item::Food, 20));
    gs.player.hunger = 1;
    let outcome = gs.try_move(Direction::North);
    assert_eq!(outcome, MoveOutcome::Lose);
    assert_eq!(gs.player.hunger, 0);
    // the turn short-circuits: the destination is not marked visited
    assert!(!gs.map.is_visited(Location(0, 1)));
}

#[test]
fn hunger_one_with_food_survives() {
    let mut gs = GameState::new();
    gs.map.insert_room(Location(0, 1), quiet_room());
    gs.player.hunger = 1;
    let outcome = gs.try_move(Direction::North);
    assert_eq!(outcome, MoveOutcome::Continued);
    assert_eq!(gs.player.hunger, 10);
}

#[test]
fn exit_room_wins_despite_encounter() {
    let mut gs = GameState::new();
    let mut exit_room = quiet_room();
    exit_room.is_exit = true;
    exit_room.encounter = Some(EncounterType::Monster);
    gs.map.insert_room(Location(0, 1), exit_room);
    let outcome = gs.try_move(Direction::North);
    assert_eq!(outcome, MoveOutcome::Win);
    // the encounter was never resolved: no enemy spawned
    assert!(gs.get_enemy(Location(0, 1)).is_none());
    let room = gs.map.get(Location(0, 1)).unwrap();
    assert_eq!(room.encounter, Some(EncounterType::Monster));
}

#[test]
fn loot_encounter_is_collected_and_cleared() {
    let mut gs = GameState::new();
    let mut loot = quiet_room();
    loot.encounter = Some(EncounterType::Treasure);
    gs.map.insert_room(Location(0, 1), loot);
    let outcome = gs.try_move(Direction::North);
    assert_eq!(outcome, MoveOutcome::Continued);
    assert_eq!(gs.player.inventory.count(Item::Treasure), 6);
    assert!(gs.map.get(Location(0, 1)).unwrap().encounter.is_none());
}

#[test]
fn monster_room_hands_off_to_battle() {
    let mut gs = GameState::new();
    let mut lair = quiet_room();
    lair.encounter = Some(EncounterType::Monster);
    gs.map.insert_room(Location(0, 1), lair);
    let outcome = gs.try_move(Direction::North);
    assert_eq!(outcome, MoveOutcome::EnterBattle(Location(0, 1)));
    let enemy = gs.get_enemy(Location(0, 1)).expect("an enemy must be registered");
    assert!(!enemy.is_boss());
    // the encounter is persistent: still on the room
    assert_eq!(
        gs.map.get(Location(0, 1)).unwrap().encounter,
        Some(EncounterType::Monster)
    );
}

#[test]
fn monster_resolution_spawns_idempotently() {
    let mut gs = GameState::new();
    let first = gs.resolve_encounter(EncounterType::Monster);
    assert_eq!(first, MoveOutcome::EnterBattle(Location(0, 0)));
    let spawned = gs.get_enemy(Location(0, 0)).expect("first resolution spawns");
    let second = gs.resolve_encounter(EncounterType::Monster);
    assert_eq!(second, MoveOutcome::EnterBattle(Location(0, 0)));
    let still = gs.get_enemy(Location(0, 0)).expect("enemy survives re-resolution");
    assert_eq!(spawned, still);
    assert_eq!(gs.enemies.entries.len(), 1);
}

#[test]
fn boss_resolution_spawns_a_boss() {
    let mut gs = GameState::new();
    let outcome = gs.resolve_encounter(EncounterType::Boss);
    assert_eq!(outcome, MoveOutcome::EnterBattle(Location(0, 0)));
    let enemy = gs.get_enemy(Location(0, 0)).unwrap();
    assert!(enemy.is_boss());
    assert_eq!(enemy.health, 20);
}

#[test]
fn merchant_hands_off_without_mutation() {
    let mut gs = GameState::new();
    let outcome = gs.resolve_encounter(EncounterType::Merchant);
    assert_eq!(outcome, MoveOutcome::EnterMerchant);
    assert_eq!(gs.player.inventory.count(Item::Food), 20);
    assert!(gs.enemies.entries.is_empty());
}

#[test]
fn chest_without_key_changes_nothing() {
    let mut gs = GameState::new();
    let outcome = gs.resolve_encounter(EncounterType::Chest);
    assert_eq!(outcome, MoveOutcome::Continued);
    assert_eq!(gs.player.inventory.count(Item::Food), 20);
    assert_eq!(gs.player.inventory.count(Item::Treasure), 5);
    assert_eq!(gs.player.inventory.count(Item::Key), 0);
    assert_eq!(gs.player.inventory.count(Item::MapScroll), 0);
}

#[test]
fn chest_with_key_spends_it_for_one_to_three_finds() {
    let mut gs = GameState::new();
    gs.player.inventory.add(Item::Key);
    let outcome = gs.resolve_encounter(EncounterType::Chest);
    assert_eq!(outcome, MoveOutcome::Continued);
    let food_gain = gs.player.inventory.count(Item::Food) as i64 - 20;
    let treasure_gain = gs.player.inventory.count(Item::Treasure) as i64 - 5;
    let key_gain = gs.player.inventory.count(Item::Key) as i64; // one key was spent
    assert!((0..=1).contains(&food_gain));
    assert!((0..=1).contains(&treasure_gain));
    assert!((0..=1).contains(&key_gain));
    let total = food_gain + treasure_gain + key_gain;
    assert!((1..=3).contains(&total));
    assert_eq!(gs.player.inventory.count(Item::MapScroll), 0);
}

#[test]
fn map_scroll_encounter_adds_one() {
    let mut gs = GameState::new();
    let outcome = gs.resolve_encounter(EncounterType::MapScroll);
    assert_eq!(outcome, MoveOutcome::Continued);
    assert_eq!(gs.player.inventory.count(Item::MapScroll), 1);
    let again = gs.resolve_encounter(EncounterType::MapScroll);
    assert_eq!(again, MoveOutcome::Continued);
    assert_eq!(gs.player.inventory.count(Item::MapScroll), 2);
}

#[test]
fn remove_encounter_clears_room_and_enemy() {
    let mut gs = GameState::new();
    let mut lair = quiet_room();
    lair.encounter = Some(EncounterType::Boss);
    gs.map.insert_room(Location(0, 1), lair);
    gs.spawn_enemy_at(Location(0, 1), true);
    assert!(gs.get_enemy(Location(0, 1)).is_some());
    gs.remove_encounter_at(Location(0, 1));
    let room = gs.map.get(Location(0, 1)).unwrap();
    assert!(room.encounter.is_none());
    assert!(room.door_south);
    assert!(gs.get_enemy(Location(0, 1)).is_none());
}

#[test]
fn remove_encounter_on_ungenerated_cell_only_drops_enemy() {
    let mut gs = GameState::new();
    gs.spawn_enemy_at(Location(5, 5), false);
    gs.remove_encounter_at(Location(5, 5));
    assert!(gs.get_enemy(Location(5, 5)).is_none());
    assert!(gs.map.get(Location(5, 5)).is_none());
}

#[test]
fn update_enemy_overwrites_stats() {
    let mut gs = GameState::new();
    gs.spawn_enemy_at(Location(0, 0), false);
    let mut enemy = gs.get_enemy(Location(0, 0)).unwrap();
    enemy.health -= 1;
    gs.update_enemy(Location(0, 0), enemy);
    assert_eq!(gs.get_enemy(Location(0, 0)).unwrap(), enemy);
}

#[test]
fn try_move_player_moves_and_generates() {
    let mut gs = GameState::new();
    assert!(gs.try_move_player(Direction::East));
    assert_eq!(gs.player.location, Location(1, 0));
    let room = gs.map.get(Location(1, 0)).expect("destination generated");
    assert!(room.door_west);
    // hunger and food are untouched at this layer
    assert_eq!(gs.player.hunger, 10);
    assert_eq!(gs.player.inventory.count(Item::Food), 20);
}

#[test]
fn try_move_player_respects_missing_doors() {
    let mut gs = GameState::new();
    gs.map.insert_room(Location(0, 1), quiet_room());
    assert!(gs.try_move_player(Direction::North));
    assert!(!gs.try_move_player(Direction::West));
    assert_eq!(gs.player.location, Location(0, 1));
}
