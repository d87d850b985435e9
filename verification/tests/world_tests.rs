use hivesim::game::{ByteOp, GameEvent, GameState};
use hivesim::world::flag::Flag;
use hivesim::world::input::{handle_event, Cheat, ClickAction};
use hivesim::world::map::{Colony, Flower, GridMap, GridPos, Tree};
use hivesim::world::save::{LoadError, SaveMap};
use hivesim::world::setup::{animate_despawn_flower, healthbars, start_apocalypse};
use hivesim::world::WorldMap;

#[test]
pub fn quantity_bits() {
    let mut flowers = Flag::from_bits_truncate(Flag::FLOWER);
    assert_eq!(0, flowers.get_resource_quantity());

    flowers.set_resource_quantity(100);
    assert_eq!(100, flowers.get_resource_quantity());

    flowers.set_resource_quantity(1000);
    assert_eq!(1000, flowers.get_resource_quantity());

    flowers.set_resource_quantity(Flag::MAX_RESOURCE_COUNT);
    assert_eq!(Flag::MAX_RESOURCE_COUNT, flowers.get_resource_quantity());
}

#[test]
fn flag_constants_have_their_bits() {
    assert_eq!(Flag::EMPTY, 0);
    assert_eq!(Flag::FLOWER, 1);
    assert_eq!(Flag::TREE, 2);
    assert_eq!(Flag::VOLCANO, 4);
    assert_eq!(Flag::COLONY_C, 8);
    assert_eq!(Flag::COLONY_M, 16);
    assert_eq!(Flag::COLONY_Y, 32);
    assert_eq!(Flag::MULTIVAC, 64);
    assert_eq!(Flag::WIRE, 128);
    assert_eq!(Flag::OUTPOST, 256);
    assert_eq!(Flag::CONNECTED, 512);
    assert_eq!(Flag::HIVE_FOOD, Flag::FLOWER);
    assert_eq!(Flag::MULTIVAC_FOOD, Flag::FLOWER | Flag::TREE | Flag::VOLCANO);
    assert_eq!(Flag::WALL, Flag::TREE | Flag::VOLCANO);
    assert_eq!(Flag::COLONY_ALL, Flag::COLONY_C | Flag::COLONY_M | Flag::COLONY_Y);
    assert_eq!(Flag::KIND_MASK, !Flag::RESOURCE_QUANTITY);
    assert_eq!(Flag::QUANTITY_SHIFT, Flag::RESOURCE_QUANTITY.trailing_zeros());
    assert_eq!(
        Flag::MAX_RESOURCE_COUNT,
        2u32.pow(Flag::RESOURCE_QUANTITY.leading_ones()) - 1
    );
    assert_eq!(Flag::MAX_RESOURCE_COUNT, 4_194_303);
}

#[test]
fn quantity_round_trip_keeps_every_kind() {
    let kinds = [
        Flag::EMPTY,
        Flag::FLOWER,
        Flag::TREE,
        Flag::VOLCANO,
        Flag::COLONY_C,
        Flag::COLONY_M,
        Flag::COLONY_Y,
        Flag::MULTIVAC,
        Flag::WIRE,
        Flag::OUTPOST,
        Flag::CONNECTED,
        Flag::COLONY_ALL,
        Flag::KIND_MASK,
    ];
    let quantities = [0, 1, 9, 1000, 65_536, Flag::MAX_RESOURCE_COUNT - 1, Flag::MAX_RESOURCE_COUNT];
    for kind in kinds {
        for q in quantities {
            let mut cell = Flag::from_bits_truncate(kind);
            cell.set_resource_quantity(q);
            assert_eq!(cell.get_resource_quantity(), q);
            assert_eq!(cell.bits() & Flag::KIND_MASK, kind);
            cell.set_resource_quantity(0);
            assert_eq!(cell.bits(), kind);
        }
    }
}

#[test]
fn quantity_above_the_maximum_keeps_its_low_bits_and_the_kind() {
    let mut cell = Flag::from_bits_truncate(Flag::TREE);
    cell.set_resource_quantity(Flag::MAX_RESOURCE_COUNT + 6);
    assert_eq!(cell.get_resource_quantity(), 5);
    assert_eq!(cell.bits() & Flag::KIND_MASK, Flag::TREE);
    cell.set_resource_quantity(u32::MAX);
    assert_eq!(cell.get_resource_quantity(), Flag::MAX_RESOURCE_COUNT);
    assert_eq!(cell.bits() & Flag::KIND_MASK, Flag::TREE);
}

#[test]
fn flag_set_operations() {
    let mut cell = Flag::empty();
    assert!(cell.is_empty());
    assert_eq!(Flag::from_bits(0x8000_0001), Some(Flag::from_bits_truncate(0x8000_0001)));
    cell.insert(Flag::TREE | Flag::WIRE);
    assert!(cell.intersects(Flag::WALL));
    assert!(!cell.intersects(Flag::FLOWER));
    assert!(cell.contains(Flag::TREE | Flag::WIRE));
    assert!(!cell.contains(Flag::WALL));
    cell.remove(Flag::TREE);
    assert_eq!(cell.bits(), Flag::WIRE);
    cell.set_resource_quantity(3);
    assert!(!cell.is_empty());
    cell.remove(Flag::WIRE);
    assert!(!cell.is_empty());
    assert_eq!(cell.get_resource_quantity(), 3);
}

#[test]
fn new_map_is_empty_and_bounded() {
    let map: GridMap<4, 3> = GridMap::new();
    assert_eq!(map.w(), 4);
    assert_eq!(map.h(), 3);
    for y in 0..3 {
        for x in 0..4 {
            assert_eq!(map.get(x, y), Some(Flag::empty()));
        }
    }
    assert_eq!(map.get(4, 0), None);
    assert_eq!(map.get(0, 3), None);
    assert_eq!(map.get(usize::MAX, usize::MAX), None);
    assert_eq!(map.get_uvec2(3, 2), Some(Flag::empty()));
    assert_eq!(map.get_uvec2(4, 2), None);
}

#[test]
fn set_writes_one_cell_by_column_and_row() {
    let mut map: GridMap<4, 3> = GridMap::new();
    assert!(map.set(3, 1, Flag::from_bits_truncate(Flag::FLOWER)));
    assert!(!map.set(1, 3, Flag::from_bits_truncate(Flag::TREE)));
    assert!(!map.set(4, 0, Flag::from_bits_truncate(Flag::TREE)));
    for y in 0..3 {
        for x in 0..4 {
            let expected = if (x, y) == (3, 1) { Flag::FLOWER } else { Flag::EMPTY };
            assert_eq!(map.get(x, y).unwrap().bits(), expected);
        }
    }
    let saved = SaveMap::from_map(&map);
    assert_eq!(saved.data[1 * 4 + 3], Flag::FLOWER);
}

#[test]
fn signed_positions_reach_every_cell_and_nothing_else() {
    let mut map: GridMap<4, 3> = GridMap::new();
    map.set(0, 1, Flag::from_bits_truncate(Flag::TREE));
    map.set(2, 1, Flag::from_bits_truncate(Flag::FLOWER));
    map.set(3, 0, Flag::from_bits_truncate(Flag::WIRE));
    for y in 0..3 {
        for x in 0..4 {
            assert_eq!(map.get_ivec2(GridPos::new(x, y)), map.get(x as usize, y as usize));
        }
    }
    assert_eq!(map.get_ivec2(GridPos::new(0, 1)).unwrap().bits(), Flag::TREE);
    assert_eq!(map.get_ivec2(GridPos::new(3, 0)).unwrap().bits(), Flag::WIRE);
    assert_eq!(map.get_ivec2(GridPos::new(0, 0)), Some(Flag::empty()));
    assert_eq!(map.get_ivec2(GridPos::new(-1, 1)), None);
    assert_eq!(map.get_ivec2(GridPos::new(1, -1)), None);
    assert_eq!(map.get_ivec2(GridPos::new(4, 1)), None);
    assert_eq!(map.get_ivec2(GridPos::new(1, 3)), None);
    assert_eq!(map.get_ivec2(GridPos::new(i32::MIN, i32::MAX)), None);
}

#[test]
fn grid_pos_constructors() {
    assert_eq!(GridPos::new(3, -4), GridPos { x: 3, y: -4 });
    assert_eq!(GridPos::splat(7), GridPos { x: 7, y: 7 });
    assert!(GridPos::new(0, 0).has_room());
    assert!(GridPos::new(i32::MAX - 1, i32::MIN + 1).has_room());
    assert!(!GridPos::new(i32::MAX, 0).has_room());
    assert!(!GridPos::new(0, i32::MIN).has_room());
    assert_eq!(Flower::MAX, 1000);
    assert_eq!(Tree::MAX, 1000);
    assert_eq!(Colony::MAX, 1000);
}

#[test]
fn initialize_map_fills_quantities_and_border() {
    let mut map: GridMap<5, 4> = GridMap::new();
    map.set(2, 1, Flag::from_bits_truncate(Flag::FLOWER));
    map.set(3, 2, Flag::from_bits_truncate(Flag::TREE));
    map.set(1, 2, Flag::from_bits_truncate(Flag::VOLCANO));
    map.set(0, 0, Flag::from_bits_truncate(Flag::COLONY_C));
    map.set(4, 1, Flag::from_bits_truncate(Flag::FLOWER));
    map.initialize_map();

    let mut full_tree = Flag::from_bits_truncate(Flag::TREE);
    full_tree.set_resource_quantity(1000);
    let mut full_flower = Flag::from_bits_truncate(Flag::FLOWER);
    full_flower.set_resource_quantity(1000);

    for y in 0..4 {
        for x in 0..5 {
            let cell = map.get(x, y).unwrap();
            let border = x == 0 || y == 0 || x == 4 || y == 3;
            let expected = match (x, y) {
                (2, 1) | (4, 1) => full_flower,
                (3, 2) => full_tree,
                (1, 2) => Flag::from_bits_truncate(Flag::VOLCANO),
                (0, 0) => Flag::from_bits_truncate(Flag::COLONY_C),
                _ if border => full_tree,
                _ => Flag::empty(),
            };
            assert_eq!(cell, expected, "at {} {}", x, y);
        }
    }
}

#[test]
fn save_and_load_round_trip() {
    let mut map: GridMap<3, 2> = GridMap::new();
    map.set(1, 0, Flag::from_bits_truncate(Flag::FLOWER));
    map.set(2, 1, Flag::from_bits_truncate(0xffff_ffff));
    let saved = SaveMap::from_map(&map);
    assert_eq!(saved.width, 3);
    assert_eq!(saved.height, 2);
    assert_eq!(saved.data, vec![0, 1, 0, 0, 0, 0xffff_ffff]);

    assert_eq!(saved.mismatch::<3, 2>(), None);
    let loaded: GridMap<3, 2> = saved.into_map();
    for y in 0..2 {
        for x in 0..3 {
            assert_eq!(loaded.get(x, y), map.get(x, y));
        }
    }
}

#[test]
fn load_tells_wrong_dimensions_and_length() {
    let transposed = SaveMap { data: vec![0; 6], width: 2, height: 3 };
    assert_eq!(transposed.mismatch::<3, 2>(), Some(LoadError::Dimensions));
    let short = SaveMap { data: vec![0; 5], width: 3, height: 2 };
    assert_eq!(short.mismatch::<3, 2>(), Some(LoadError::Length));
    let long = SaveMap { data: vec![0; 7], width: 3, height: 2 };
    assert_eq!(long.mismatch::<3, 2>(), Some(LoadError::Length));
    let both = SaveMap { data: vec![0; 5], width: 3, height: 3 };
    assert_eq!(both.mismatch::<3, 2>(), Some(LoadError::Dimensions));
    let fine = SaveMap { data: vec![7; 6], width: 3, height: 2 };
    assert_eq!(fine.mismatch::<3, 2>(), None);
    assert_eq!(fine.into_map::<3, 2>().get(2, 1), Some(Flag::from_bits_truncate(7)));
}

#[test]
fn clicks_place_and_remove() {
    let mut map: GridMap<4, 4> = GridMap::new();
    let stock = GameState::default();
    let mut full_flower = Flag::from_bits_truncate(Flag::FLOWER);
    full_flower.set_resource_quantity(1000);
    let mut full_tree = Flag::from_bits_truncate(Flag::TREE);
    full_tree.set_resource_quantity(1000);

    let done = handle_event(&mut map, &stock, Cheat(false), 1, 2, ClickAction::AddFlower);
    assert_eq!(done, (true, Some(GameEvent::Flower(ByteOp::Decrement))));
    assert_eq!(map.get(1, 2), Some(full_flower));

    let done = handle_event(&mut map, &stock, Cheat(false), 1, 2, ClickAction::AddTree);
    assert_eq!(done, (false, None));
    assert_eq!(map.get(1, 2), Some(full_flower));

    let done = handle_event(&mut map, &stock, Cheat(true), 2, 2, ClickAction::AddTree);
    assert_eq!(done, (true, None));
    assert_eq!(map.get(2, 2), Some(full_tree));

    let done = handle_event(&mut map, &stock, Cheat(false), 2, 2, ClickAction::Remove);
    assert_eq!(done, (true, Some(GameEvent::Delete(ByteOp::Decrement))));
    assert_eq!(map.get(2, 2), Some(Flag::empty()));

    let done = handle_event(&mut map, &stock, Cheat(false), 2, 2, ClickAction::Remove);
    assert_eq!(done, (false, None));

    let done = handle_event(&mut map, &stock, Cheat(false), 4, 2, ClickAction::AddFlower);
    assert_eq!(done, (false, None));
}

#[test]
fn cheats_toggle() {
    let mut cheat = Cheat(false);
    cheat.toggle();
    assert_eq!(cheat, Cheat(true));
    cheat.toggle();
    assert_eq!(cheat, Cheat(false));
}

#[test]
fn clicks_need_stock() {
    let mut map: GridMap<4, 4> = GridMap::new();
    let none = GameState { flower_ammo: 0, tree_ammo: 0, delete_ammo: 0 };
    assert_eq!(handle_event(&mut map, &none, Cheat(false), 1, 1, ClickAction::AddFlower), (false, None));
    assert_eq!(handle_event(&mut map, &none, Cheat(true), 1, 1, ClickAction::AddTree), (false, None));
    map.set(1, 1, Flag::from_bits_truncate(Flag::TREE));
    assert_eq!(handle_event(&mut map, &none, Cheat(false), 1, 1, ClickAction::Remove), (false, None));
    assert_eq!(map.get(1, 1).unwrap().bits(), Flag::TREE);
    map.set(2, 1, Flag::from_bits_truncate(Flag::COLONY_C));
    let stock = GameState::default();
    assert_eq!(handle_event(&mut map, &stock, Cheat(false), 2, 1, ClickAction::Remove), (false, None));
}

#[test]
fn apocalypse_starts_in_the_middle() {
    let mut map: WorldMap = GridMap::new();
    map.set(50, 50, Flag::from_bits_truncate(Flag::FLOWER));
    let position = start_apocalypse(&mut map);
    assert_eq!(position, GridPos::new(50, 50));
    assert_eq!(map.get(50, 50).unwrap().bits(), Flag::FLOWER | Flag::MULTIVAC);

    let mut small: GridMap<10, 10> = GridMap::new();
    assert_eq!(start_apocalypse(&mut small), GridPos::new(50, 50));
    for y in 0..10 {
        for x in 0..10 {
            assert!(small.get(x, y).unwrap().is_empty());
        }
    }
}

#[test]
fn flower_pictures_and_health() {
    assert_eq!(animate_despawn_flower(1000), 0);
    assert_eq!(animate_despawn_flower(999), 0);
    assert_eq!(animate_despawn_flower(937), 1);
    assert_eq!(animate_despawn_flower(500), 8);
    assert_eq!(animate_despawn_flower(1), 15);
    assert_eq!(animate_despawn_flower(0), 16);
    assert_eq!(healthbars(1000), 100);
    assert_eq!(healthbars(9), 0);
    assert_eq!(healthbars(995), 99);
    assert_eq!(healthbars(Flag::MAX_RESOURCE_COUNT), 419_430);
}
