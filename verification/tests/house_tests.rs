use house_explorer::exit::{Exit, ExitTarget, Traversability, Visibility};
use house_explorer::house::{Direction, Floor, House, HouseError, RoomContent, RoomId, RoomType};
use house_explorer::map_state::{compute_positions, grid_bounds};
use house_explorer::setup::build_house;

fn target_of(house: &House, room: usize, d: Direction) -> Option<usize> {
    let r = house.room(RoomId(room)).ok()?;
    match r.exits.get(d)?.target {
        ExitTarget::Resolved(t) => Some(t.0),
        _ => None,
    }
}

#[test]
fn direction_opposite_delta_and_names() {
    for d in Direction::all() {
        assert_eq!(d.opposite().opposite(), d);
        assert_ne!(d.opposite(), d);
        let (dx, dy) = d.delta();
        let (ox, oy) = d.opposite().delta();
        assert_eq!((dx + ox, dy + oy), (0, 0));
    }
    assert_eq!(Direction::North.delta(), (0, -1));
    assert_eq!(Direction::East.delta(), (1, 0));
    assert_eq!(Direction::all(), [Direction::North, Direction::South, Direction::East, Direction::West]);
    assert_eq!(Direction::West.name(), "West");
    assert_eq!(Direction::South.name(), "South");
}

#[test]
fn room_type_exit_counts() {
    assert_eq!(RoomType::DeadEnd.exit_count(), 1);
    assert_eq!(RoomType::Corner.exit_count(), 2);
    assert_eq!(RoomType::Passage.exit_count(), 2);
    assert_eq!(RoomType::Split.exit_count(), 3);
    assert_eq!(RoomType::Crossroads.exit_count(), 4);
    assert_eq!(RoomType::Portal.exit_count(), 0);
    assert_eq!(RoomType::Stairway.exit_count(), 0);
}

#[test]
fn exit_constructors() {
    let e = Exit::new_open(RoomId(3));
    assert!(matches!(e.target, ExitTarget::Resolved(RoomId(3))));
    assert_eq!(e.traversability, Traversability::Open);
    assert_eq!(e.visibility, Visibility::Visible);
    let w = Exit::sealed_wall();
    assert!(matches!(w.target, ExitTarget::SealedWall));
    assert_eq!(w.traversability, Traversability::Impassable);
    assert_eq!(Exit::locked(RoomId(1)).traversability, Traversability::Locked);
    assert_eq!(Exit::one_way(RoomId(1)).traversability, Traversability::OneWay);
    assert_eq!(Exit::secret(RoomId(1)).visibility, Visibility::Secret);
    let u = Exit::new_unresolved((4, -2), Floor::Attic);
    assert!(matches!(u.target, ExitTarget::Unresolved { pos: (4, -2), floor: Floor::Attic }));
}

#[test]
fn room_content_starts_empty() {
    let c = RoomContent::new("Cellar", "Damp");
    assert_eq!(c.name, "Cellar");
    assert_eq!(c.description, "Damp");
    assert!(c.items.is_empty() && c.clues.is_empty() && c.monster_theme.is_empty());
    assert!(!c.monster_spawnable);
    assert!(c.one_way_exits.is_empty());
    assert!(c.exit_logic.is_none());
}

#[test]
fn new_house_is_empty() {
    let h = House::new();
    assert!(h.rooms.is_empty());
    assert!(h.position_grid.is_empty());
    assert_eq!(h.entrance_id, RoomId(0));
    assert!(h.frontier.is_empty() && h.room_deck.is_empty());
    assert_eq!(h.generation_seed, 0);
    assert_eq!(h.next_room_id, 0);
}

#[test]
fn add_room_and_lookup() {
    let mut h = House::new();
    h.add_room(RoomId(4), "Study", Floor::SecondFloor, (2, 3), RoomType::Corner);
    let r = h.room(RoomId(4)).unwrap();
    assert_eq!(r.id, RoomId(4));
    assert_eq!(r.content.name, "Study");
    assert_eq!(r.content.description, "");
    assert_eq!(r.floor, Floor::SecondFloor);
    assert_eq!(r.pos, (2, 3));
    assert!(r.exits.directions().is_empty());
    assert_eq!(h.position_grid.len(), 1);
    assert!(matches!(h.room(RoomId(5)), Err(HouseError::RoomNotFound(RoomId(5)))));
}

#[test]
fn grid_keys_of_different_places_differ() {
    let mut h = House::new();
    h.add_room(RoomId(0), "A", Floor::FirstFloor, (0, 0), RoomType::DeadEnd);
    h.add_room(RoomId(1), "B", Floor::SecondFloor, (0, 0), RoomType::DeadEnd);
    h.add_room(RoomId(2), "C", Floor::FirstFloor, (-1, 0), RoomType::DeadEnd);
    h.add_room(RoomId(3), "D", Floor::FirstFloor, (0, -1), RoomType::DeadEnd);
    assert_eq!(h.position_grid.len(), 4);
}

#[test]
fn connect_one_way_and_missing_rooms() {
    let mut h = House::new();
    h.add_room(RoomId(0), "A", Floor::FirstFloor, (0, 0), RoomType::DeadEnd);
    h.add_room(RoomId(1), "B", Floor::FirstFloor, (1, 0), RoomType::DeadEnd);
    assert!(h.connect(RoomId(0), Direction::East, RoomId(1)).is_ok());
    assert_eq!(target_of(&h, 0, Direction::East), Some(1));
    assert_eq!(target_of(&h, 1, Direction::West), None);
    assert!(matches!(h.connect(RoomId(7), Direction::East, RoomId(1)), Err(HouseError::RoomNotFound(RoomId(7)))));
}

#[test]
fn connect_two_way_links_both_rooms() {
    let mut h = House::new();
    h.add_room(RoomId(0), "A", Floor::FirstFloor, (0, 0), RoomType::DeadEnd);
    h.add_room(RoomId(1), "B", Floor::FirstFloor, (0, -1), RoomType::DeadEnd);
    assert!(h.connect_two_way(RoomId(0), Direction::North, RoomId(1)).is_ok());
    assert_eq!(target_of(&h, 0, Direction::North), Some(1));
    assert_eq!(target_of(&h, 1, Direction::South), Some(0));
    // a missing second room: the first exit is made, the error names the missing room
    let r = h.connect_two_way(RoomId(0), Direction::East, RoomId(9));
    assert!(matches!(r, Err(HouseError::RoomNotFound(RoomId(9)))));
    assert_eq!(target_of(&h, 0, Direction::East), Some(9));
    // a missing first room changes nothing
    let r = h.connect_two_way(RoomId(8), Direction::East, RoomId(0));
    assert!(matches!(r, Err(HouseError::RoomNotFound(RoomId(8)))));
    assert_eq!(target_of(&h, 0, Direction::West), None);
}

#[test]
fn starting_house_layout() {
    let h = build_house();
    assert_eq!(h.rooms.len(), 9);
    assert_eq!(h.room(RoomId(0)).unwrap().content.name, "Entrance");
    assert_eq!(h.room(RoomId(7)).unwrap().content.name, "2nd floor landing");
    assert_eq!(target_of(&h, 0, Direction::East), Some(1));
    assert_eq!(target_of(&h, 1, Direction::North), Some(5));
    assert_eq!(target_of(&h, 3, Direction::South), Some(6));
    assert_eq!(target_of(&h, 6, Direction::North), None);
    assert_eq!(target_of(&h, 6, Direction::South), Some(2));
    assert_eq!(target_of(&h, 2, Direction::North), None);
    assert_eq!(target_of(&h, 8, Direction::North), Some(4));
    let exits = h.room(RoomId(1)).unwrap().exits.directions();
    assert_eq!(exits, vec![Direction::North, Direction::East, Direction::West]);
}

#[test]
fn starting_house_places_and_shapes() {
    let h = build_house();
    let library = h.room(RoomId(3)).unwrap();
    assert_eq!(library.pos, (2, -2));
    assert_eq!(library.room_type, RoomType::Corner);
    assert_eq!(library.floor, Floor::FirstFloor);
    assert_eq!(library.content.description, "");
    assert_eq!(h.room(RoomId(1)).unwrap().room_type, RoomType::Split);
    assert_eq!(h.room(RoomId(5)).unwrap().room_type, RoomType::Passage);
    assert_eq!(h.room(RoomId(8)).unwrap().pos, (0, -1));
    assert_eq!(h.position_grid.len(), 9);
    assert_eq!(h.entrance_id, RoomId(0));
    assert!(h.frontier.is_empty());
    assert!(h.room_deck.is_empty());
}

#[test]
fn next_step_toward_follows_a_route() {
    let h = build_house();
    assert_eq!(h.next_step_toward(RoomId(0), RoomId(0)), None);
    assert_eq!(h.next_step_toward(RoomId(0), RoomId(1)), Some(RoomId(1)));
    assert_eq!(h.next_step_toward(RoomId(0), RoomId(8)), Some(RoomId(1)));
    assert_eq!(h.next_step_toward(RoomId(7), RoomId(0)), Some(RoomId(5)));
    // the basement only leads down into the kitchen
    assert_eq!(h.next_step_toward(RoomId(6), RoomId(0)), Some(RoomId(2)));
    // from the library the kitchen is nearer through the basement than back through the landing
    assert_eq!(h.next_step_toward(RoomId(3), RoomId(2)), Some(RoomId(6)));
}

#[test]
fn next_step_toward_unreachable_is_none() {
    let mut h = build_house();
    h.add_room(RoomId(9), "Vault", Floor::Basement, (5, 5), RoomType::DeadEnd);
    assert_eq!(h.next_step_toward(RoomId(0), RoomId(9)), None);
    assert_eq!(h.next_step_toward(RoomId(9), RoomId(0)), None);
    // an unknown starting room has no exits
    assert_eq!(h.next_step_toward(RoomId(42), RoomId(0)), None);
}

#[test]
fn next_step_toward_takes_a_shortest_route() {
    // 0 -> 1 -> 2 -> 3 and a shortcut 0 -> 3
    let mut h = House::new();
    for i in 0..4 {
        h.add_room(RoomId(i), "R", Floor::FirstFloor, (i as i32, 0), RoomType::Passage);
    }
    h.connect(RoomId(0), Direction::East, RoomId(1)).unwrap();
    h.connect(RoomId(1), Direction::East, RoomId(2)).unwrap();
    h.connect(RoomId(2), Direction::East, RoomId(3)).unwrap();
    h.connect(RoomId(0), Direction::South, RoomId(3)).unwrap();
    assert_eq!(h.next_step_toward(RoomId(0), RoomId(3)), Some(RoomId(3)));
    assert_eq!(h.next_step_toward(RoomId(0), RoomId(2)), Some(RoomId(1)));
}

#[test]
fn map_layout_of_starting_house() {
    let h = build_house();
    let layout = compute_positions(&h, RoomId(0), Floor::FirstFloor);
    assert_eq!(layout.len(), 9);
    assert_eq!(layout[0].0, RoomId(0));
    let pos = |id: usize| layout.iter().find(|(r, _)| r.0 == id).map(|(_, p)| *p).unwrap();
    assert_eq!(pos(0), (0, 2));
    assert_eq!(pos(1), (1, 2));
    assert_eq!(pos(2), (2, 2));
    assert_eq!(pos(5), (1, 1));
    assert_eq!(pos(7), (1, 0));
    assert_eq!(pos(3), (2, 0));
    assert_eq!(pos(6), (2, 1));
    assert_eq!(pos(4), (0, 0));
    assert_eq!(pos(8), (0, 1));
    assert_eq!(grid_bounds(&layout), (3, 3));
}

#[test]
fn map_layout_stays_on_its_floor_and_open_exits() {
    let mut h = House::new();
    h.add_room(RoomId(0), "A", Floor::FirstFloor, (0, 0), RoomType::Passage);
    h.add_room(RoomId(1), "B", Floor::FirstFloor, (-1, 0), RoomType::Passage);
    h.add_room(RoomId(2), "C", Floor::Basement, (0, 1), RoomType::Passage);
    h.add_room(RoomId(3), "D", Floor::FirstFloor, (1, 0), RoomType::Passage);
    h.connect(RoomId(0), Direction::West, RoomId(1)).unwrap();
    h.connect(RoomId(0), Direction::South, RoomId(2)).unwrap();
    h.rooms.get_mut(&0).unwrap().exits.insert(Direction::East, Exit::locked(RoomId(3)));
    let layout = compute_positions(&h, RoomId(0), Floor::FirstFloor);
    assert_eq!(layout, vec![(RoomId(0), (1, 0)), (RoomId(1), (0, 0))]);
    assert_eq!(grid_bounds(&layout), (2, 1));
    // a start on another floor is placed alone
    let alone = compute_positions(&h, RoomId(2), Floor::FirstFloor);
    assert_eq!(alone, vec![(RoomId(2), (0, 0))]);
}

#[test]
fn grid_bounds_of_nothing() {
    assert_eq!(grid_bounds(&Vec::new()), (1, 1));
}

#[test]
fn house_error_message() {
    assert_eq!(HouseError::RoomNotFound(RoomId(12)).message(), "no such room: RoomId(12)");
}

#[test]
fn next_step_toward_never_passes_a_closed_exit() {
    // 0 -> 1 -> 2 through open doors, and a locked shortcut 0 -> 2
    let mut h = House::new();
    for i in 0..3 {
        h.add_room(RoomId(i), "R", Floor::FirstFloor, (i as i32, 0), RoomType::Passage);
    }
    h.connect(RoomId(0), Direction::East, RoomId(1)).unwrap();
    h.connect(RoomId(1), Direction::East, RoomId(2)).unwrap();
    h.rooms.get_mut(&0).unwrap().exits.insert(Direction::South, Exit::locked(RoomId(2)));
    assert_eq!(h.next_step_toward(RoomId(0), RoomId(2)), Some(RoomId(1)));
    // without the open route, a locked, one-way or impassable exit leads nowhere
    h.rooms.get_mut(&1).unwrap().exits.insert(Direction::East, Exit::one_way(RoomId(2)));
    assert_eq!(h.next_step_toward(RoomId(0), RoomId(2)), None);
    h.rooms.get_mut(&1).unwrap().exits.insert(Direction::East, Exit::sealed_wall());
    assert_eq!(h.next_step_toward(RoomId(0), RoomId(2)), None);
    h.rooms.get_mut(&1).unwrap().exits.insert(Direction::East, Exit::secret(RoomId(2)));
    assert_eq!(h.next_step_toward(RoomId(0), RoomId(2)), Some(RoomId(1)));
}

#[test]
fn next_step_toward_breaks_ties_north_south_east_west() {
    // two shortest routes from 0 to 3: north through 1, east through 2
    let mut h = House::new();
    for i in 0..4 {
        h.add_room(RoomId(i), "R", Floor::FirstFloor, (i as i32, 0), RoomType::Split);
    }
    h.connect(RoomId(0), Direction::East, RoomId(2)).unwrap();
    h.connect(RoomId(0), Direction::North, RoomId(1)).unwrap();
    h.connect(RoomId(1), Direction::East, RoomId(3)).unwrap();
    h.connect(RoomId(2), Direction::North, RoomId(3)).unwrap();
    assert_eq!(h.next_step_toward(RoomId(0), RoomId(3)), Some(RoomId(1)));
    // with the northern door locked, the eastern route is taken
    h.rooms.get_mut(&0).unwrap().exits.insert(Direction::North, Exit::locked(RoomId(1)));
    assert_eq!(h.next_step_toward(RoomId(0), RoomId(3)), Some(RoomId(2)));
}

#[test]
fn map_layout_places_rooms_along_fewest_steps() {
    // 0 -> 1 -> 2 to the east, and a direct door 0 -> 2 to the south
    let mut h = House::new();
    for i in 0..3 {
        h.add_room(RoomId(i), "R", Floor::FirstFloor, (0, 0), RoomType::Split);
    }
    h.connect(RoomId(0), Direction::East, RoomId(1)).unwrap();
    h.connect(RoomId(1), Direction::East, RoomId(2)).unwrap();
    h.connect(RoomId(0), Direction::South, RoomId(2)).unwrap();
    let r = compute_positions(&h, RoomId(0), Floor::FirstFloor);
    assert_eq!(r, vec![(RoomId(0), (0, 0)), (RoomId(2), (0, 1)), (RoomId(1), (1, 0))]);
}
