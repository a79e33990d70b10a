use house_explorer::event::EventQueue;
use house_explorer::game_state::GameState;
use house_explorer::house::{HouseError, RoomId};
use house_explorer::item::ItemId;
use house_explorer::map_state::map_cell;
use house_explorer::monster::{MonsterId, MonsterRegistry, MonsterTemplate};
use house_explorer::player::{Player, PlayerConfig};
use house_explorer::setup::{basement_spawn, build_house, create_player, new_monsters, new_registry};
use house_explorer::view::{fight_gauge, gauge_label, health_label, item_names, log_text, stats_text};

fn start_state() -> GameState {
    let config = PlayerConfig { name: "Ada".to_string(), health: 10, strength: 4, speed: 3 };
    GameState::new(build_house(), create_player(config), new_registry(), new_monsters(), EventQueue::new(), basement_spawn(), None)
}

#[test]
fn log_of_the_entrance() {
    let s = start_state();
    assert_eq!(log_text(&s, "Hello").unwrap(), "Location: Entrance\nExits: East\nHello\n\n");
}

#[test]
fn log_lists_exits_and_monsters() {
    let mut s = start_state();
    s.player.current_room = RoomId(1);
    s.monsters.move_to(MonsterId(0), RoomId(1));
    let ghoul = MonsterTemplate { name: "Ghoul".to_string(), health: 5, strength: 1, speed: 1 };
    s.monsters.add_monster_instance(ghoul.spawn(MonsterId(1), Some(RoomId(1))));
    assert_eq!(
        log_text(&s, "").unwrap(),
        "Location: Hallway\nExits: North, East, West\n\n\nA Zombie, Ghoul growls, chained in the corner.\n"
    );
}

#[test]
fn log_of_a_missing_room_is_an_error() {
    let mut s = start_state();
    s.player.current_room = RoomId(40);
    assert_eq!(log_text(&s, "x"), Err(HouseError::RoomNotFound(RoomId(40))));
}

#[test]
fn player_panels() {
    let mut p = Player::new("Ada".to_string(), RoomId(0), 10, 4, 3);
    p.health = -2;
    p.moves_remaining = 1;
    assert_eq!(stats_text(&p), "\n  strength: 4 \n  speed: 3\n  Moves Remaining: 1");
    assert_eq!(health_label(&p), "\n  -2/10 HP");
}

#[test]
fn monster_health_bar() {
    let mut monsters = new_monsters();
    assert_eq!(fight_gauge(&monsters, MonsterId(0)), ("Zombie".to_string(), 15, 15));
    assert_eq!(fight_gauge(&monsters, MonsterId(3)), ("???".to_string(), 0, 1));
    monsters.monster_mut(MonsterId(0)).unwrap().health = -4;
    assert_eq!(fight_gauge(&monsters, MonsterId(0)), ("Zombie".to_string(), 0, 15));
    assert_eq!(fight_gauge(&MonsterRegistry::new(), MonsterId(0)), ("???".to_string(), 0, 1));
    assert_eq!(gauge_label("Zombie", 7, 15), "Zombie: 7/15 HP");
}

#[test]
fn inventory_names() {
    let registry = new_registry();
    let names = item_names(&registry, &vec![ItemId(2), ItemId(9), ItemId(0)]);
    assert_eq!(names, vec!["Crowbar".to_string(), "something".to_string(), "Backpack".to_string()]);
}

#[test]
fn map_cells() {
    assert_eq!(map_cell(0, 0, 30, 30, (3, 3), (1, 2)), Some((10, 20, 10, 10)));
    assert_eq!(map_cell(5, 7, 100, 40, (3, 2), (2, 1)), Some((5 + 2 * 33, 7 + 20, 33, 20)));
    // a narrow area still gives cells 3 wide
    assert_eq!(map_cell(0, 0, 4, 4, (3, 3), (2, 2)), Some((6, 6, 3, 3)));
    // no column to share the area among
    assert_eq!(map_cell(0, 0, 30, 30, (0, 3), (0, 0)), None);
    assert_eq!(map_cell(0, 0, 30, 30, (65536, 3), (0, 0)), None);
    // a cell beyond the screen's coordinates
    assert_eq!(map_cell(65000, 0, 30, 30, (3, 3), (1, 0)), Some((65010, 0, 10, 10)));
    assert_eq!(map_cell(65530, 0, 30, 30, (3, 3), (1, 0)), None);
    assert_eq!(map_cell(0, 0, 30, 30, (3, 3), (0, 7000)), None);
}
