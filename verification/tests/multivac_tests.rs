use hivesim::multivac::outpost::{promote_outpost, setup, Config, OutpostFate};
use hivesim::multivac::route::Effect;
use hivesim::multivac::search::Multivac;
use hivesim::multivac::tick::next_clock;
use hivesim::multivac::{Dir, MultivacState, SearchPath, WireKind};
use hivesim::world::flag::Flag;
use hivesim::world::map::{GridMap, GridPos};

fn open_grid_with_food() -> (GridMap<10, 10>, Multivac) {
    let mut map: GridMap<10, 10> = GridMap::new();
    assert!(map.set(5, 5, Flag::from_bits_truncate(Flag::MULTIVAC)));
    let mut food = Flag::from_bits_truncate(Flag::FLOWER);
    food.set_resource_quantity(1000);
    assert!(map.set(5, 8, food));
    (map, Multivac::new(GridPos::new(5, 5)))
}

fn entry(x: i32, y: i32, px: i32, py: i32) -> SearchPath {
    SearchPath::new(GridPos::new(x, y), GridPos::new(px, py))
}

#[test]
fn search_finds_food_and_route_lays_wire() {
    let (mut map, mut multivac) = open_grid_with_food();
    let mut state = MultivacState::Init;
    let mut found = None;
    for _ in 0..1000 {
        let (next, _) = multivac.update(state, &mut map);
        state = next;
        if let MultivacState::InitRoute(p) = state {
            found = Some(p);
            break;
        }
    }
    assert_eq!(found, Some(GridPos::new(5, 8)));
    assert_eq!(multivac.reached_from(GridPos::new(5, 8)), Some(GridPos::new(5, 7)));
    assert_eq!(multivac.reached_from(GridPos::new(5, 7)), Some(GridPos::new(5, 6)));
    assert_eq!(multivac.reached_from(GridPos::new(5, 6)), Some(GridPos::new(5, 5)));

    let (state, effects) = multivac.update(state, &mut map);
    assert_eq!(state, MultivacState::Route(GridPos::new(5, 8)));
    assert_eq!(effects, vec![Effect::Ping(GridPos::new(5, 8)), Effect::Outpost(GridPos::new(5, 8))]);
    assert!(map.get(5, 8).unwrap().intersects(Flag::OUTPOST));
    assert!(map.get(5, 8).unwrap().intersects(Flag::FLOWER));
    assert_eq!(map.get(5, 8).unwrap().get_resource_quantity(), 1000);

    let (state, effects) = multivac.update(state, &mut map);
    assert_eq!(state, MultivacState::Stop);
    assert_eq!(map.get(5, 7).unwrap().bits(), Flag::WIRE);
    assert_eq!(map.get(5, 6).unwrap().bits(), Flag::WIRE);
    assert_eq!(map.get(5, 5).unwrap().bits(), Flag::MULTIVAC);
    assert_eq!(
        effects,
        vec![
            Effect::Wire {
                pos: GridPos::new(5, 7),
                kind: WireKind::Connect(Dir::South, Dir::North),
                distance: 1
            },
            Effect::PingLong(GridPos::new(5, 7)),
            Effect::Wire {
                pos: GridPos::new(5, 6),
                kind: WireKind::Connect(Dir::South, Dir::North),
                distance: 2
            },
            Effect::PingLong(GridPos::new(5, 6)),
        ]
    );
    let wires = (0..10)
        .flat_map(|y| (0..10).map(move |x| (x, y)))
        .filter(|&(x, y)| map.get(x, y).unwrap().intersects(Flag::WIRE))
        .count();
    assert_eq!(wires, 2);
}

#[test]
fn init_seeds_each_neighbour_and_a_ring() {
    let map: GridMap<10, 10> = GridMap::new();
    let mut multivac = Multivac::new(GridPos::new(5, 5));
    assert_eq!(multivac.queued(), 0);
    assert_eq!(multivac.init(&map), MultivacState::Search(None));
    assert_eq!(multivac.reached_from(GridPos::new(5, 5)), Some(GridPos::new(0, 0)));
    assert!(multivac.has_visited(GridPos::new(5, 5)));
    assert!(!multivac.has_visited(GridPos::new(5, 6)));
    let ring = [entry(5, 6, 5, 5), entry(5, 4, 5, 5), entry(6, 5, 5, 5), entry(4, 5, 5, 5)];
    let mut expected = Vec::new();
    for first in ring {
        expected.push(first);
        expected.extend_from_slice(&ring);
    }
    let queued: Vec<SearchPath> = multivac.queue.iter().copied().collect();
    assert_eq!(queued, expected);
    assert_eq!(multivac.queued(), 20);
}

#[test]
fn init_queues_only_positions_in_the_grid() {
    let map: GridMap<10, 10> = GridMap::new();

    // in a corner two of the four positions around the origin are cells
    let mut corner = Multivac::new(GridPos::new(0, 0));
    corner.init(&map);
    let ring = [entry(0, 1, 0, 0), entry(1, 0, 0, 0)];
    let mut expected = vec![entry(0, 1, 0, 0)];
    expected.extend_from_slice(&ring);
    expected.push(entry(1, 0, 0, 0));
    expected.extend_from_slice(&ring);
    let queued: Vec<SearchPath> = corner.queue.iter().copied().collect();
    assert_eq!(queued, expected);

    // on the last column nothing beyond it is queued
    let mut edge = Multivac::new(GridPos::new(9, 5));
    edge.init(&map);
    let ring = [entry(9, 6, 9, 5), entry(9, 4, 9, 5), entry(8, 5, 9, 5)];
    let mut expected = Vec::new();
    for first in ring {
        expected.push(first);
        expected.extend_from_slice(&ring);
    }
    let queued: Vec<SearchPath> = edge.queue.iter().copied().collect();
    assert_eq!(queued, expected);
    assert!(edge.queue.iter().all(|e| e.pos.x < 10 && e.prev == GridPos::new(9, 5)));

    // just outside the grid, only the one cell next to the origin
    let mut outside = Multivac::new(GridPos::new(-1, 3));
    outside.init(&map);
    let queued: Vec<SearchPath> = outside.queue.iter().copied().collect();
    assert_eq!(queued, vec![entry(0, 3, -1, 3), entry(0, 3, -1, 3)]);

    let mut far = Multivac::new(GridPos::new(40, 40));
    far.init(&map);
    assert_eq!(far.queued(), 0);
    assert_eq!(far.search(&map), MultivacState::Stop);
    assert_eq!(far.search_reverse(&map), MultivacState::Stop);
}

#[test]
fn search_step_by_step() {
    let mut map: GridMap<6, 6> = GridMap::new();
    map.set(3, 3, Flag::from_bits_truncate(Flag::MULTIVAC));
    map.set(3, 2, Flag::from_bits_truncate(Flag::WIRE));
    let mut multivac = Multivac::new(GridPos::new(3, 3));
    multivac.init(&map);
    assert_eq!(multivac.queued(), 20);

    // (3,4) is open: it is visited and its unvisited neighbours are queued
    assert_eq!(multivac.search(&map), MultivacState::Search(Some(GridPos::new(3, 4))));
    assert_eq!(multivac.reached_from(GridPos::new(3, 4)), Some(GridPos::new(3, 3)));
    assert_eq!(multivac.queued(), 19 + 3);
    let tail: Vec<SearchPath> = multivac.queue.iter().copied().skip(19).collect();
    assert_eq!(tail, vec![entry(3, 5, 3, 4), entry(4, 4, 3, 4), entry(2, 4, 3, 4)]);

    // the ring's (3,4) is visited already
    assert_eq!(multivac.search(&map), MultivacState::Search(None));
    assert_eq!(multivac.queued(), 21);

    // (3,2) holds wire: visited, but not opened
    assert_eq!(multivac.search(&map), MultivacState::Search(None));
    assert_eq!(multivac.reached_from(GridPos::new(3, 2)), Some(GridPos::new(3, 3)));
    assert_eq!(multivac.queued(), 20);

    // (4,3) in reverse order: west is the origin, which is visited
    assert_eq!(multivac.search_reverse(&map), MultivacState::Search(Some(GridPos::new(4, 3))));
    let tail: Vec<SearchPath> = multivac.queue.iter().copied().skip(19).collect();
    assert_eq!(tail, vec![entry(5, 3, 4, 3), entry(4, 2, 4, 3), entry(4, 4, 4, 3)]);
}

#[test]
fn search_treats_a_flower_with_quantity_as_food_in_both_orders() {
    for reverse in [false, true] {
        let mut map: GridMap<6, 6> = GridMap::new();
        let mut food = Flag::from_bits_truncate(Flag::FLOWER);
        food.set_resource_quantity(1000);
        map.set(3, 4, food);
        let mut multivac = Multivac::new(GridPos::new(3, 3));
        multivac.init(&map);
        let state = if reverse { multivac.search_reverse(&map) } else { multivac.search(&map) };
        assert_eq!(state, MultivacState::InitRoute(GridPos::new(3, 4)));
        assert_eq!(multivac.queued(), 19);
    }
}

#[test]
fn search_opens_cells_of_the_zero_row_and_column() {
    let map: GridMap<4, 4> = GridMap::new();
    let mut multivac = Multivac::new(GridPos::new(1, 1));
    multivac.queue.push_back(entry(0, 1, 1, 1));
    assert_eq!(multivac.search(&map), MultivacState::Search(Some(GridPos::new(0, 1))));
    assert_eq!(multivac.reached_from(GridPos::new(0, 1)), Some(GridPos::new(1, 1)));
    let queued: Vec<SearchPath> = multivac.queue.iter().copied().collect();
    assert_eq!(queued, vec![entry(0, 2, 0, 1), entry(0, 0, 0, 1), entry(1, 1, 0, 1)]);

    let mut reverse = Multivac::new(GridPos::new(1, 1));
    reverse.queue.push_back(entry(1, 0, 1, 1));
    assert_eq!(reverse.search_reverse(&map), MultivacState::Search(Some(GridPos::new(1, 0))));
    let queued: Vec<SearchPath> = reverse.queue.iter().copied().collect();
    assert_eq!(queued, vec![entry(0, 0, 1, 0), entry(2, 0, 1, 0), entry(1, 1, 1, 0)]);
}

#[test]
fn search_marks_a_position_outside_the_grid_and_goes_on() {
    let map: GridMap<3, 3> = GridMap::new();
    let mut multivac = Multivac::new(GridPos::new(1, 1));
    multivac.queue.push_back(entry(1, -1, 1, 0));
    multivac.queue.push_back(entry(3, 1, 2, 1));
    assert_eq!(multivac.search(&map), MultivacState::Search(None));
    assert!(multivac.has_visited(GridPos::new(1, -1)));
    assert_eq!(multivac.search_reverse(&map), MultivacState::Search(None));
    assert!(multivac.has_visited(GridPos::new(3, 1)));
    assert_eq!(multivac.queued(), 0);
}

#[test]
fn repeated_search_drains_the_queue_within_the_work_at_the_start() {
    let map: GridMap<8, 7> = GridMap::new();
    let mut multivac = Multivac::new(GridPos::new(4, 3));
    multivac.init(&map);
    let bound = multivac.queued() + 4 * 8 * 7;
    let mut steps = 0;
    loop {
        let state = if steps % 2 == 0 { multivac.search(&map) } else { multivac.search_reverse(&map) };
        if state == MultivacState::Stop {
            break;
        }
        steps += 1;
        assert!(steps <= bound);
    }
    assert_eq!(multivac.queued(), 0);
    for y in 0..7 {
        for x in 0..8 {
            assert!(multivac.has_visited(GridPos::new(x, y)));
        }
    }
    assert!(steps > 8 * 7);
}

#[test]
fn search_finds_what_a_way_of_open_cells_leads_to() {
    // a wall with one gap between the origin and the food
    let mut map: GridMap<9, 7> = GridMap::new();
    map.set(1, 3, Flag::from_bits_truncate(Flag::MULTIVAC));
    for y in 0..7 {
        if y != 6 {
            map.set(4, y, Flag::from_bits_truncate(Flag::WIRE));
        }
    }
    let mut food = Flag::from_bits_truncate(Flag::VOLCANO);
    food.set_resource_quantity(3);
    map.set(8, 0, food);
    let origin = GridPos::new(1, 3);
    let mut multivac = Multivac::new(origin);
    multivac.init(&map);
    let bound = multivac.queued() + 4 * 9 * 7;
    let mut found = None;
    for step in 0..bound {
        let state = if step % 3 == 0 { multivac.search_reverse(&map) } else { multivac.search(&map) };
        if let MultivacState::InitRoute(p) = state {
            found = Some(p);
            break;
        }
    }
    assert_eq!(found, Some(GridPos::new(8, 0)));

    // every visited position but the origin was reached from a visited
    // position one step away
    for y in -1..8 {
        for x in -1..10 {
            let p = GridPos::new(x, y);
            if p == origin {
                continue;
            }
            if let Some(prev) = multivac.reached_from(p) {
                assert_eq!((prev.x - p.x).abs() + (prev.y - p.y).abs(), 1);
                assert!(multivac.has_visited(prev));
            }
        }
    }
    // and the trail leads from the food back to the origin
    let mut at = GridPos::new(8, 0);
    let mut hops = 0;
    while at != origin {
        at = multivac.reached_from(at).unwrap();
        hops += 1;
        assert!(hops <= 9 * 7);
    }
    assert_eq!(hops, 16);
}

#[test]
fn search_behind_a_closed_wall_finds_nothing() {
    let mut map: GridMap<9, 7> = GridMap::new();
    for y in 0..7 {
        map.set(4, y, Flag::from_bits_truncate(Flag::WIRE));
    }
    map.set(8, 0, Flag::from_bits_truncate(Flag::FLOWER));
    let mut multivac = Multivac::new(GridPos::new(1, 3));
    multivac.init(&map);
    let mut steps = 0;
    loop {
        let state = multivac.search(&map);
        assert!(!matches!(state, MultivacState::InitRoute(_)));
        if state == MultivacState::Stop {
            break;
        }
        steps += 1;
        assert!(steps <= 20 + 4 * 9 * 7);
    }
    assert!(!multivac.has_visited(GridPos::new(8, 0)));
    assert!(multivac.has_visited(GridPos::new(4, 3)));
    assert!(!multivac.has_visited(GridPos::new(5, 3)));
}

#[test]
fn sweep_runs_half_the_queue_in_rounds() {
    let map: GridMap<10, 10> = GridMap::new();
    let mut multivac = Multivac::new(GridPos::new(5, 5));

    // an empty queue: no round, the state is Stop
    let (state, effects) = multivac.sweep(&map);
    assert_eq!(state, MultivacState::Stop);
    assert!(effects.is_empty());

    multivac.init(&map);
    let (state, effects) = multivac.sweep(&map);
    // twenty entries, of which four are new positions
    assert_eq!(
        effects,
        vec![
            Effect::Ping(GridPos::new(5, 6)),
            Effect::Ping(GridPos::new(5, 4)),
            Effect::Ping(GridPos::new(6, 5)),
            Effect::Ping(GridPos::new(4, 5)),
        ]
    );
    assert_eq!(state, MultivacState::Search(None));
    assert_eq!(multivac.queued(), 12);
}

#[test]
fn sweep_with_one_entry_does_nothing() {
    let map: GridMap<10, 10> = GridMap::new();
    let mut multivac = Multivac::new(GridPos::new(5, 5));
    multivac.queue.push_back(entry(5, 6, 5, 5));
    let (state, effects) = multivac.update(MultivacState::Search(None), &mut GridMap::<10, 10>::new());
    assert_eq!(state, MultivacState::Stop);
    assert!(effects.is_empty());
    assert_eq!(multivac.queued(), 1);
    let (state, _) = multivac.sweep(&map);
    assert_eq!(state, MultivacState::Stop);
}

#[test]
fn update_restarts_from_stop_and_error_and_rejects_in_flight() {
    let mut map: GridMap<10, 10> = GridMap::new();
    let mut multivac = Multivac::new(GridPos::new(5, 5));
    for state in [MultivacState::Init, MultivacState::Stop, MultivacState::Error] {
        multivac.queue.push_back(entry(9, 9, 9, 8));
        let (next, effects) = multivac.update(state, &mut map);
        assert_eq!(next, MultivacState::Search(None));
        assert!(effects.is_empty());
        assert_eq!(multivac.queued(), 20);
        assert!(multivac.has_visited(GridPos::new(5, 5)));
    }
    let (next, effects) = multivac.update(MultivacState::InFlight, &mut map);
    assert_eq!(next, MultivacState::Error);
    assert!(effects.is_empty());
    assert_eq!(multivac.queued(), 20);
}

#[test]
fn init_route_outside_the_grid_is_an_error() {
    let mut map: GridMap<10, 10> = GridMap::new();
    let mut multivac = Multivac::new(GridPos::new(5, 5));
    for p in [GridPos::new(-1, 5), GridPos::new(10, 5), GridPos::new(5, 10), GridPos::new(-3, -3)] {
        let (next, effects) = multivac.update(MultivacState::InitRoute(p), &mut map);
        assert_eq!(next, MultivacState::Error);
        assert!(effects.is_empty());
    }
    for y in 0..10 {
        for x in 0..10 {
            assert!(map.get(x, y).unwrap().is_empty());
        }
    }
}

#[test]
fn init_route_marks_a_cell_of_the_zero_column() {
    let mut map: GridMap<10, 10> = GridMap::new();
    let mut food = Flag::from_bits_truncate(Flag::TREE);
    food.set_resource_quantity(1000);
    map.set(0, 5, food);
    let mut multivac = Multivac::new(GridPos::new(5, 5));
    let p = GridPos::new(0, 5);
    let (next, effects) = multivac.update(MultivacState::InitRoute(p), &mut map);
    assert_eq!(next, MultivacState::Route(p));
    assert_eq!(effects, vec![Effect::Ping(p), Effect::Outpost(p)]);
    assert_eq!(map.get(0, 5).unwrap().bits() & Flag::KIND_MASK, Flag::TREE | Flag::OUTPOST);
    assert_eq!(map.get(0, 5).unwrap().get_resource_quantity(), 1000);
}

#[test]
fn search_and_route_run_along_the_zero_row() {
    let mut map: GridMap<5, 5> = GridMap::new();
    map.set(0, 0, Flag::from_bits_truncate(Flag::MULTIVAC));
    map.set(3, 0, Flag::from_bits_truncate(Flag::FLOWER));
    for x in 0..5 {
        map.set(x, 1, Flag::from_bits_truncate(Flag::WIRE));
    }
    let mut multivac = Multivac::new(GridPos::new(0, 0));
    let mut state = MultivacState::Init;
    for _ in 0..100 {
        state = multivac.update(state, &mut map).0;
        if let MultivacState::InitRoute(_) = state {
            break;
        }
    }
    assert_eq!(state, MultivacState::InitRoute(GridPos::new(3, 0)));
    assert_eq!(multivac.reached_from(GridPos::new(3, 0)), Some(GridPos::new(2, 0)));
    assert_eq!(multivac.reached_from(GridPos::new(2, 0)), Some(GridPos::new(1, 0)));
    assert_eq!(multivac.reached_from(GridPos::new(1, 0)), Some(GridPos::new(0, 0)));

    state = multivac.update(state, &mut map).0;
    assert_eq!(state, MultivacState::Route(GridPos::new(3, 0)));
    let (state, effects) = multivac.update(state, &mut map);
    assert_eq!(state, MultivacState::Stop);
    assert_eq!(effects.len(), 4);
    assert_eq!(map.get(2, 0).unwrap().bits(), Flag::WIRE);
    assert_eq!(map.get(1, 0).unwrap().bits(), Flag::WIRE);
    assert_eq!(map.get(0, 0).unwrap().bits(), Flag::MULTIVAC);
    assert_eq!(map.get(3, 0).unwrap().bits(), Flag::FLOWER | Flag::OUTPOST);
}

#[test]
fn route_without_a_trail_is_an_error() {
    let mut map: GridMap<10, 10> = GridMap::new();
    let multivac = Multivac::new(GridPos::new(5, 5));
    let (state, effects) = multivac.route(GridPos::new(5, 8), &mut map);
    assert_eq!(state, MultivacState::Error);
    assert!(effects.is_empty());
}

#[test]
fn route_stops_with_an_error_where_the_map_changed() {
    let (mut map, mut multivac) = open_grid_with_food();
    let mut state = MultivacState::Init;
    for _ in 0..1000 {
        state = multivac.update(state, &mut map).0;
        if let MultivacState::InitRoute(_) = state {
            break;
        }
    }
    state = multivac.update(state, &mut map).0;
    assert_eq!(state, MultivacState::Route(GridPos::new(5, 8)));
    // a tree appears on the way after the search
    map.set(5, 6, Flag::from_bits_truncate(Flag::TREE));
    let (state, effects) = multivac.update(state, &mut map);
    assert_eq!(state, MultivacState::Error);
    assert_eq!(effects.len(), 2);
    assert_eq!(map.get(5, 7).unwrap().bits(), Flag::WIRE);
    assert_eq!(map.get(5, 6).unwrap().bits(), Flag::TREE);
}

#[test]
fn route_from_the_origin_ends_where_the_chain_is_missing() {
    let mut map: GridMap<10, 10> = GridMap::new();
    let mut multivac = Multivac::new(GridPos::new(5, 5));
    multivac.init(&map);
    // the origin was reached from (0, 0), which was reached from nowhere
    let (state, effects) = multivac.route(GridPos::new(5, 5), &mut map);
    assert_eq!(state, MultivacState::Error);
    assert!(effects.is_empty());
}

#[test]
fn waits_per_state() {
    assert_eq!(next_clock(MultivacState::Init), 50_000);
    assert_eq!(next_clock(MultivacState::InitRoute(GridPos::new(1, 1))), 0);
    assert_eq!(next_clock(MultivacState::Route(GridPos::new(1, 1))), 500);
    assert_eq!(next_clock(MultivacState::InFlight), 100);
    assert_eq!(next_clock(MultivacState::Search(None)), 100);
    assert_eq!(next_clock(MultivacState::Search(Some(GridPos::new(1, 1)))), 100);
    assert_eq!(next_clock(MultivacState::Stop), 50_000);
    assert_eq!(next_clock(MultivacState::Error), 50_000);
}

#[test]
fn directions_and_wire_kinds() {
    assert_eq!(Dir::from_ivec2(GridPos::new(0, 1)), Dir::North);
    assert_eq!(Dir::from_ivec2(GridPos::new(0, -1)), Dir::South);
    assert_eq!(Dir::from_ivec2(GridPos::new(1, 0)), Dir::East);
    assert_eq!(Dir::from_ivec2(GridPos::new(-1, 0)), Dir::West);
    assert_eq!(Dir::from_ivec2(GridPos::new(0, 0)), Dir::Nowhere);
    assert_eq!(Dir::from_ivec2(GridPos::new(1, 1)), Dir::Nowhere);
    assert_eq!(Dir::from_ivec2(GridPos::new(2, 0)), Dir::Nowhere);
    assert_eq!(Dir::between(GridPos::new(3, 3), GridPos::new(4, 3)), Dir::East);
    assert_eq!(Dir::between(GridPos::new(i32::MIN, 0), GridPos::new(i32::MAX, 0)), Dir::Nowhere);
    assert_eq!(
        WireKind::from_route(GridPos::new(2, 3), GridPos::new(3, 3), GridPos::new(3, 4)),
        WireKind::Connect(Dir::East, Dir::South)
    );
    assert_eq!(
        WireKind::from_route(GridPos::new(3, 3), GridPos::new(3, 3), GridPos::new(9, 9)),
        WireKind::Connect(Dir::Nowhere, Dir::Nowhere)
    );
    assert_eq!(SearchPath::new(GridPos::new(1, 2), GridPos::new(3, 4)), entry(1, 2, 3, 4));
}

#[test]
fn setup_marks_the_cell_and_hands_out_loose_ends() {
    let config = Config::default();
    assert_eq!(config.location, GridPos::new(75, 75));
    assert_eq!(config.route_clock, 100);
    assert_eq!(config.gather_clock, 1000);
    assert_eq!(config.route_delay, 300);
    assert_eq!(config.gather_rate, 50);

    let mut map: GridMap<10, 10> = GridMap::new();
    map.set(4, 4, Flag::from_bits_truncate(Flag::FLOWER));
    let (multivac, ends) = setup(GridPos::new(4, 4), GridPos::new(9, 1), &mut map);
    assert_eq!(multivac.origin, GridPos::new(4, 4));
    assert_eq!(multivac.queued(), 0);
    assert!(!multivac.has_visited(GridPos::new(4, 4)));
    assert_eq!(map.get(4, 4).unwrap().bits(), Flag::FLOWER | Flag::MULTIVAC);
    assert_eq!(
        ends,
        vec![
            (GridPos::new(8, 1), WireKind::Disconnect(Dir::West)),
            (GridPos::new(9, 0), WireKind::Disconnect(Dir::South)),
            (GridPos::new(9, 2), WireKind::Disconnect(Dir::North)),
        ]
    );

    let (_, ends) = setup(GridPos::new(-4, 4), GridPos::new(5, 5), &mut map);
    assert_eq!(
        ends,
        vec![
            (GridPos::new(4, 5), WireKind::Disconnect(Dir::West)),
            (GridPos::new(6, 5), WireKind::Disconnect(Dir::East)),
            (GridPos::new(5, 4), WireKind::Disconnect(Dir::South)),
            (GridPos::new(5, 6), WireKind::Disconnect(Dir::North)),
        ]
    );
}

#[test]
fn outpost_gathers_then_is_promoted() {
    let mut map: GridMap<10, 10> = GridMap::new();
    let mut cell = Flag::from_bits_truncate(Flag::FLOWER | Flag::OUTPOST);
    cell.set_resource_quantity(120);
    map.set(3, 4, cell);
    let pos = GridPos::new(3, 4);

    assert_eq!(promote_outpost(&mut map, pos, 50), OutpostFate::Gathered);
    assert_eq!(map.get(3, 4).unwrap().get_resource_quantity(), 70);
    assert_eq!(promote_outpost(&mut map, pos, 50), OutpostFate::Gathered);
    assert_eq!(map.get(3, 4).unwrap().get_resource_quantity(), 20);
    assert_eq!(promote_outpost(&mut map, pos, 50), OutpostFate::Gathered);
    assert_eq!(map.get(3, 4).unwrap().bits(), Flag::FLOWER | Flag::OUTPOST);
    assert_eq!(promote_outpost(&mut map, pos, 50), OutpostFate::Gathered);
    assert_eq!(map.get(3, 4).unwrap().bits(), Flag::OUTPOST);
    assert_eq!(promote_outpost(&mut map, pos, 50), OutpostFate::Promoted);
    assert_eq!(map.get(3, 4).unwrap().bits(), Flag::MULTIVAC);

    assert_eq!(promote_outpost(&mut map, GridPos::new(-1, 4), 50), OutpostFate::Missing);
    assert_eq!(promote_outpost(&mut map, GridPos::new(10, 4), 50), OutpostFate::Missing);
    assert_eq!(promote_outpost(&mut map, GridPos::new(4, -1), 50), OutpostFate::Missing);
}

#[test]
fn outpost_on_the_zero_column_gathers_and_is_promoted() {
    let mut map: GridMap<10, 10> = GridMap::new();
    let mut cell = Flag::from_bits_truncate(Flag::TREE | Flag::OUTPOST);
    cell.set_resource_quantity(60);
    map.set(0, 4, cell);
    let pos = GridPos::new(0, 4);
    assert_eq!(promote_outpost(&mut map, pos, 50), OutpostFate::Gathered);
    assert_eq!(map.get(0, 4).unwrap().get_resource_quantity(), 10);
    assert_eq!(promote_outpost(&mut map, pos, 50), OutpostFate::Gathered);
    assert_eq!(promote_outpost(&mut map, pos, 50), OutpostFate::Gathered);
    assert_eq!(map.get(0, 4).unwrap().bits(), Flag::OUTPOST);
    assert_eq!(promote_outpost(&mut map, pos, 50), OutpostFate::Promoted);
    assert_eq!(map.get(0, 4).unwrap().bits(), Flag::MULTIVAC);
    assert_eq!(promote_outpost(&mut map, GridPos::new(3, 0), 50), OutpostFate::Promoted);
    assert_eq!(map.get(3, 0).unwrap().bits(), Flag::MULTIVAC);
}
