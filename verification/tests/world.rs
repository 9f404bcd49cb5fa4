use dungeon_core::geometry::{Bounds, Direction, Location};
use dungeon_core::rng::Rng;
use dungeon_core::room::{EncounterType, Room};
use dungeon_core::world_map::WorldMap;

fn plain_room(north: bool, east: bool, south: bool, west: bool) -> Room {
    Room {
        door_north: north,
        door_east: east,
        door_south: south,
        door_west: west,
        is_exit: false,
        encounter: None,
    }
}

#[test]
fn directions_pair_with_inverses() {
    assert_eq!(Direction::North.opposite(), Direction::South);
    assert_eq!(Direction::South.opposite(), Direction::North);
    assert_eq!(Direction::East.opposite(), Direction::West);
    assert_eq!(Direction::West.opposite(), Direction::East);
    let loc = Location(3, -4);
    assert_eq!(loc.offset_in_direction(Direction::North), Location(3, -3));
    assert_eq!(loc.offset_in_direction(Direction::East), Location(4, -4));
    assert_eq!(
        loc.offset_in_direction(Direction::East).offset_in_direction(Direction::West),
        loc
    );
}

#[test]
fn fresh_map_has_open_start_room() {
    let map = WorldMap::new();
    let start = map.get(Location(0, 0)).expect("start room must exist");
    assert!(start.door_north && start.door_east && start.door_south && start.door_west);
    assert!(!start.is_exit);
    assert!(start.encounter.is_none());
    assert!(map.is_visited(Location(0, 0)));
    assert!(!map.is_visited(Location(0, 1)));
    assert!(map.get(Location(0, 1)).is_none());
}

#[test]
fn generation_is_idempotent() {
    let mut map = WorldMap::new();
    let mut rng = Rng::new(7);
    map.generate_room_at(Location(0, 1), &mut rng);
    let first = map.get(Location(0, 1)).expect("generated room must exist");
    map.generate_room_at(Location(0, 1), &mut rng);
    let second = map.get(Location(0, 1)).expect("room must persist");
    assert_eq!(first, second);
}

#[test]
fn generated_neighbour_doors_agree() {
    let mut map = WorldMap::new();
    let mut rng = Rng::new(11);
    map.generate_room_at(Location(0, 1), &mut rng);
    let start = map.get(Location(0, 0)).unwrap();
    let above = map.get(Location(0, 1)).unwrap();
    assert_eq!(start.door_north, above.door_south);
}

#[test]
fn replace_keeps_doors_and_clears_encounter() {
    let mut map = WorldMap::new();
    let mut with_loot = plain_room(true, false, true, false);
    with_loot.encounter = Some(EncounterType::Food);
    map.insert_room(Location(0, 1), with_loot);
    let mut cleared = with_loot;
    cleared.encounter = None;
    map.replace(Location(0, 1), cleared);
    let room = map.get(Location(0, 1)).unwrap();
    assert!(room.encounter.is_none());
    assert!(room.door_south);
}

#[test]
fn bounds_cover_all_generated_rooms() {
    let mut map = WorldMap::new();
    map.insert_room(Location(0, 1), plain_room(false, false, true, false));
    map.insert_room(Location(-2, 0), plain_room(false, false, false, false));
    let b = map.bounds();
    assert!(!b.is_empty);
    assert_eq!(b.min_x, -2);
    assert_eq!(b.max_x, 0);
    assert_eq!(b.min_y, 0);
    assert_eq!(b.max_y, 1);
}

#[test]
fn bounds_algebra() {
    let empty = Bounds::empty();
    assert!(empty.is_empty);
    let one = empty.cover(Location(2, 3));
    assert!(!one.is_empty);
    assert_eq!((one.min_x, one.max_x, one.min_y, one.max_y), (2, 2, 3, 3));
    let two = one.cover(Location(-1, 5));
    assert_eq!((two.min_x, two.max_x, two.min_y, two.max_y), (-1, 2, 3, 5));
    let wide = two.expand(1, 0);
    assert_eq!((wide.min_x, wide.max_x, wide.min_y, wide.max_y), (-2, 3, 3, 5));
}

#[test]
fn rng_is_seed_deterministic_and_bounded() {
    let mut a = Rng::new(42);
    let mut b = Rng::new(42);
    for _ in 0..16 {
        assert_eq!(a.next_u64(), b.next_u64());
    }
    let mut c = Rng::new(1);
    for _ in 0..64 {
        let v = c.next_below(5);
        assert!(v < 5);
    }
}

#[test]
fn persistence_split_of_encounters() {
    assert!(EncounterType::Monster.is_persistent());
    assert!(EncounterType::Boss.is_persistent());
    assert!(EncounterType::Merchant.is_persistent());
    assert!(!EncounterType::Food.is_persistent());
    assert!(!EncounterType::Treasure.is_persistent());
    assert!(!EncounterType::Key.is_persistent());
    assert!(!EncounterType::MapScroll.is_persistent());
    assert!(!EncounterType::Chest.is_persistent());
}
