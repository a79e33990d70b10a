use house_explorer::combat::{dodge_roll_succeeds, dodge_succeeds, resolve_flee_with, resolve_round, resolve_round_with, CombatOutcome};
use house_explorer::event::{EventQueue, GameEvent};
use house_explorer::game_state::GameState;
use house_explorer::house::{Direction, RoomId};
use house_explorer::item::{ItemError, ItemId, ItemRegistry, Owner};
use house_explorer::monster::{Monster, MonsterError, MonsterId, MonsterRegistry, MonsterTemplate};
use house_explorer::player::{ConfigError, MoveError, Player, PlayerConfig};
use house_explorer::room_event::{RoomEventKind, RoomEventRegistry};
use house_explorer::setup::{basement_spawn, build_house, create_player, new_monsters, new_registry};
use house_explorer::text::int_to_string;

fn zombie() -> Monster {
    MonsterTemplate { name: "Zombie".to_string(), health: 15, strength: 2, speed: 1 }.spawn(MonsterId(0), Some(RoomId(6)))
}

fn hero() -> Player {
    Player::new("Ada".to_string(), RoomId(0), 10, 4, 3)
}

fn fresh_state(speed: i32) -> GameState {
    let config = PlayerConfig { name: "Ada".to_string(), health: 10, strength: 4, speed };
    GameState::new(build_house(), create_player(config), new_registry(), new_monsters(), EventQueue::new(), basement_spawn(), Some(MonsterId(7)))
}

#[test]
fn decimal_text() {
    assert_eq!(int_to_string(0), "0");
    assert_eq!(int_to_string(42), "42");
    assert_eq!(int_to_string(-7), "-7");
    assert_eq!(int_to_string(i32::MIN), "-2147483648");
    assert_eq!(int_to_string(i32::MAX), "2147483647");
}

#[test]
fn player_starts_with_full_stats() {
    let p = hero();
    assert_eq!(p.current_room, RoomId(0));
    assert_eq!(p.found_item, None);
    assert_eq!(p.health, 10);
    assert_eq!(p.max_health, 10);
    assert_eq!(p.moves_remaining, 3);
}

#[test]
fn player_moves_through_exits_only() {
    let h = build_house();
    let mut p = hero();
    assert!(p.move_player(&h, Direction::East).is_ok());
    assert_eq!(p.current_room, RoomId(1));
    assert!(matches!(p.move_player(&h, Direction::South), Err(MoveError::InvalidMovement(Direction::South))));
    assert_eq!(p.current_room, RoomId(1));
}

#[test]
fn registry_assign_and_lookups() {
    let mut r = ItemRegistry::new();
    r.add_item(ItemId(5), "Lamp", "Oil lamp");
    assert_eq!(r.name_of(ItemId(5)), Some("Lamp"));
    assert_eq!(r.name_of(ItemId(6)), None);
    assert_eq!(r.owner_of(ItemId(5)), None);
    r.assign(ItemId(5), Owner::Room(RoomId(2)));
    assert_eq!(r.owner_of(ItemId(5)), Some(Owner::Room(RoomId(2))));
    r.assign(ItemId(5), Owner::Player);
    assert_eq!(r.owner_of(ItemId(5)), Some(Owner::Player));
    assert_eq!(r.items_owned_by(Owner::Player), vec![ItemId(5)]);
    assert!(r.items_owned_by(Owner::Room(RoomId(2))).is_empty());
}

#[test]
fn starting_items() {
    let r = new_registry();
    assert_eq!(r.items_owned_by(Owner::Player), vec![ItemId(0)]);
    assert_eq!(r.items_owned_by(Owner::Room(RoomId(3))), vec![ItemId(1)]);
    assert_eq!(r.items_owned_by(Owner::Room(RoomId(4))), vec![ItemId(2)]);
    assert_eq!(r.name_of(ItemId(1)), Some("Room Key"));
    assert_eq!(r.name_of(ItemId(2)), Some("Crowbar"));
    assert_eq!(r.name_of(ItemId(0)), Some("Backpack"));
    let mut many = r.items_owned_by(Owner::Nowhere);
    many.sort_by_key(|i| i.0);
    assert!(many.is_empty());
}

#[test]
fn search_finds_an_item_of_the_room() {
    let r = new_registry();
    let mut p = hero();
    p.current_room = RoomId(3);
    assert!(p.search_room(&r).is_ok());
    assert_eq!(p.found_item, Some(ItemId(1)));
    p.current_room = RoomId(5);
    assert!(matches!(p.search_room(&r), Err(ItemError::NoItemsInRoom(RoomId(5)))));
    assert_eq!(p.found_item, Some(ItemId(1)));
}

#[test]
fn monster_registry_operations() {
    let mut m = MonsterRegistry::new();
    assert!(matches!(m.monster(MonsterId(0)), Err(MonsterError::MonsterNotFound(MonsterId(0)))));
    m.add_monster_instance(zombie());
    let mut ghost = MonsterTemplate { name: "Ghost".to_string(), health: 5, strength: 1, speed: 3 }.spawn(MonsterId(1), Some(RoomId(6)));
    m.add_monster_instance(ghost);
    assert_eq!(m.monster(MonsterId(1)).unwrap().name, "Ghost");
    let here: Vec<usize> = m.monsters_in(RoomId(6)).iter().map(|x| x.id.0).collect();
    assert_eq!(here, vec![0, 1]);
    m.move_to(MonsterId(0), RoomId(2));
    assert_eq!(m.monster(MonsterId(0)).unwrap().current_room, Some(RoomId(2)));
    assert_eq!(m.monsters_in(RoomId(6)).len(), 1);
    m.move_to(MonsterId(9), RoomId(2));
    if let Some(z) = m.monster_mut(MonsterId(0)) {
        z.health = 3;
    }
    assert_eq!(m.monster(MonsterId(0)).unwrap().health, 3);
    assert!(m.monster_mut(MonsterId(9)).is_none());
    // adding a monster with a known id replaces it
    ghost = MonsterTemplate { name: "Wraith".to_string(), health: 9, strength: 3, speed: 2 }.spawn(MonsterId(1), None);
    m.add_monster_instance(ghost);
    assert_eq!(m.monster(MonsterId(1)).unwrap().name, "Wraith");
    assert_eq!(m.all_monsters_mut().len(), 2);
    m.remove_monster(MonsterId(0));
    assert!(m.monster(MonsterId(0)).is_err());
    assert_eq!(m.all_monsters_mut().len(), 1);
    m.remove_monster(MonsterId(0));
    assert_eq!(m.all_monsters_mut().len(), 1);
}

#[test]
fn spawned_monster_is_at_full_health() {
    let z = zombie();
    assert_eq!((z.health, z.max_health, z.strength, z.speed), (15, 15, 2, 1));
    assert_eq!(z.current_room, Some(RoomId(6)));
    let m = new_monsters();
    let first = m.monster(MonsterId(0)).unwrap();
    assert_eq!(first.name, "Zombie");
    assert_eq!(first.current_room, None);
}

#[test]
fn room_event_fires_once() {
    let mut e = RoomEventRegistry::new();
    e.add_event(RoomId(6), RoomEventKind::SpawnMonster(MonsterId(0)));
    assert!(e.room_check(RoomId(5)).is_none());
    assert!(matches!(e.room_check(RoomId(6)), Some(RoomEventKind::SpawnMonster(MonsterId(0)))));
    assert!(e.room_check(RoomId(6)).is_none());
    let mut b = basement_spawn();
    assert!(b.room_check(RoomId(6)).is_some());
}

#[test]
fn event_queue_drains_in_order() {
    let mut q = EventQueue::new();
    q.push(GameEvent::PlayerMoved { from: RoomId(0), to: RoomId(1) });
    q.push(GameEvent::PlayerMoved { from: RoomId(1), to: RoomId(2) });
    let d = q.drain();
    assert_eq!(d, vec![GameEvent::PlayerMoved { from: RoomId(0), to: RoomId(1) }, GameEvent::PlayerMoved { from: RoomId(1), to: RoomId(2) }]);
    assert!(q.drain().is_empty());
}

#[test]
fn dodge_rolls() {
    assert!(dodge_roll_succeeds(3, 3));
    assert!(!dodge_roll_succeeds(4, 3));
    for _ in 0..50 {
        assert!(dodge_succeeds(12));
        assert!(!dodge_succeeds(0));
    }
}

#[test]
fn round_where_monster_strikes_first_and_hits() {
    let mut p = hero();
    let mut z = zombie();
    let (outcome, log) = resolve_round_with(&mut p, &mut z, true, false);
    assert_eq!(outcome, CombatOutcome::Ongoing);
    assert_eq!(p.health, 8);
    assert_eq!(z.health, 11);
    assert_eq!(log, vec!["The Zombie hits you for 2 damage.", "You hit the Zombie for 4 damage."]);
}

#[test]
fn round_where_dodge_and_kill() {
    let mut p = hero();
    let mut z = zombie();
    z.health = 4;
    let (outcome, log) = resolve_round_with(&mut p, &mut z, true, true);
    assert_eq!(outcome, CombatOutcome::PlayerWon);
    assert_eq!(p.health, 10);
    assert_eq!(z.health, 0);
    assert_eq!(log, vec!["You dodge the attack!", "You hit the Zombie for 4 damage.", "The Zombie falls."]);
}

#[test]
fn round_where_player_does_not_strike() {
    let mut p = hero();
    let mut z = zombie();
    let (outcome, log) = resolve_round_with(&mut p, &mut z, false, true);
    assert_eq!(outcome, CombatOutcome::Ongoing);
    assert_eq!(z.health, 15);
    assert_eq!(log, vec!["You dodged the attack!"]);
    let (_, log) = resolve_round_with(&mut p, &mut z, false, false);
    assert_eq!(p.health, 8);
    assert_eq!(log, vec!["The Zombie hits you for 2 damage."]);
}

#[test]
fn rolled_round_matches_one_of_the_two_dodges() {
    let mut p = hero();
    let mut z = zombie();
    let (outcome, log) = resolve_round(&mut p, &mut z, true);
    assert_eq!(outcome, CombatOutcome::Ongoing);
    assert_eq!(z.health, 11);
    assert!(p.health == 10 || p.health == 8);
    assert_eq!(log.len(), 2);
}

#[test]
fn flee_logs() {
    let mut p = hero();
    let z = zombie();
    let log = resolve_flee_with(&mut p, &z, false);
    assert_eq!(p.health, 8);
    assert_eq!(log, vec!["The Zombie hits you for 2 damage.", "You flee from the Zombie."]);
    let log = resolve_flee_with(&mut p, &z, true);
    assert_eq!(p.health, 8);
    assert_eq!(log, vec!["You dodge the attack!", "You flee from the Zombie."]);
}

#[test]
fn game_state_new_clears_pending_ambush() {
    let g = fresh_state(3);
    assert!(g.pending_ambush.is_none());
    assert_eq!(g.player.moves_remaining, 3);
    assert_eq!(g.current_room().unwrap().content.name, "Entrance");
}

#[test]
fn moving_uses_moves_and_records_events() {
    let mut g = fresh_state(3);
    assert!(g.move_player(Direction::East).is_ok());
    assert_eq!(g.player.current_room, RoomId(1));
    assert_eq!(g.player.moves_remaining, 2);
    assert!(matches!(g.move_player(Direction::South), Err(MoveError::InvalidMovement(Direction::South))));
    assert_eq!(g.player.moves_remaining, 2);
    let evs = g.events.drain();
    assert_eq!(evs, vec![GameEvent::PlayerMoved { from: RoomId(0), to: RoomId(1) }]);
}

#[test]
fn last_move_ends_the_turn() {
    let mut g = fresh_state(1);
    g.monsters.move_to(MonsterId(0), RoomId(2));
    assert!(g.move_player(Direction::East).is_ok());
    // the turn ended: moves refill and the zombie in the kitchen steps into the hallway
    assert_eq!(g.player.moves_remaining, 1);
    assert_eq!(g.monsters.monster(MonsterId(0)).unwrap().current_room, Some(RoomId(1)));
}

#[test]
fn no_moves_left_is_refused() {
    let mut g = fresh_state(0);
    assert!(matches!(g.move_player(Direction::East), Err(MoveError::NoMovesRemaining)));
    assert_eq!(g.player.current_room, RoomId(0));
}

#[test]
fn end_turn_moves_monsters_one_step() {
    let mut g = fresh_state(3);
    g.monsters.move_to(MonsterId(0), RoomId(8));
    g.player.moves_remaining = 0;
    g.end_turn();
    assert_eq!(g.player.moves_remaining, 3);
    assert_eq!(g.monsters.monster(MonsterId(0)).unwrap().current_room, Some(RoomId(4)));
    g.end_turn();
    assert_eq!(g.monsters.monster(MonsterId(0)).unwrap().current_room, Some(RoomId(7)));
}

#[test]
fn end_turn_leaves_unplaced_and_slow_monsters() {
    let mut g = fresh_state(3);
    g.end_turn();
    assert_eq!(g.monsters.monster(MonsterId(0)).unwrap().current_room, None);
    let still = MonsterTemplate { name: "Statue".to_string(), health: 5, strength: 0, speed: 0 }.spawn(MonsterId(1), Some(RoomId(2)));
    g.monsters.add_monster_instance(still);
    g.end_turn();
    assert_eq!(g.monsters.monster(MonsterId(1)).unwrap().current_room, Some(RoomId(2)));
}

#[test]
fn pick_up_and_drop() {
    let mut g = fresh_state(3);
    assert!(matches!(g.pick_up_item(ItemId(1)), Err(ItemError::ItemNotFound(ItemId(1)))));
    g.player.current_room = RoomId(3);
    assert!(g.pick_up_item(ItemId(1)).is_ok());
    assert_eq!(g.registry.owner_of(ItemId(1)), Some(Owner::Player));
    g.player.current_room = RoomId(5);
    assert!(g.drop_item(ItemId(1)).is_ok());
    assert_eq!(g.registry.owner_of(ItemId(1)), Some(Owner::Room(RoomId(5))));
    assert!(matches!(g.drop_item(ItemId(1)), Err(ItemError::ItemNotFound(ItemId(1)))));
}

#[test]
fn respawn_goes_to_entrance_with_half_health() {
    let mut g = fresh_state(3);
    g.player.current_room = RoomId(6);
    g.player.max_health = 11;
    g.respawn_player();
    assert_eq!(g.player.current_room, RoomId(0));
    assert_eq!(g.player.health, 5);
}

#[test]
fn arriving_in_the_basement_spawns_the_zombie() {
    let mut g = fresh_state(3);
    g.events.push(GameEvent::PlayerMoved { from: RoomId(3), to: RoomId(6) });
    let notices = g.process_events();
    assert_eq!(notices, vec!["Something lurches out of the shadows!"]);
    assert_eq!(g.pending_ambush, Some(MonsterId(0)));
    assert_eq!(g.monsters.monster(MonsterId(0)).unwrap().current_room, Some(RoomId(6)));
    // the second visit finds the zombie waiting
    g.pending_ambush = None;
    g.events.push(GameEvent::PlayerMoved { from: RoomId(3), to: RoomId(6) });
    let notices = g.process_events();
    assert_eq!(notices, vec!["a Zombie notices you"]);
    assert_eq!(g.pending_ambush, Some(MonsterId(0)));
    // an empty room produces nothing
    g.pending_ambush = None;
    g.events.push(GameEvent::PlayerMoved { from: RoomId(0), to: RoomId(1) });
    assert!(g.process_events().is_empty());
    assert_eq!(g.pending_ambush, None);
}

#[test]
fn attack_until_the_monster_falls() {
    let mut g = fresh_state(3);
    g.monsters.move_to(MonsterId(0), RoomId(0));
    let (o, _) = g.attack_with(MonsterId(0), true, true);
    assert_eq!(o, CombatOutcome::Ongoing);
    assert_eq!(g.monsters.monster(MonsterId(0)).unwrap().health, 11);
    g.attack_with(MonsterId(0), true, true);
    g.attack_with(MonsterId(0), true, true);
    let (o, log) = g.attack_with(MonsterId(0), true, false);
    assert_eq!(o, CombatOutcome::PlayerWon);
    assert_eq!(log.last().unwrap(), "The Zombie falls.");
    assert!(g.monsters.monster(MonsterId(0)).is_err());
    assert_eq!(g.player.health, 8);
}

#[test]
fn rolled_attack_and_flee() {
    let mut g = fresh_state(3);
    g.monsters.move_to(MonsterId(0), RoomId(0));
    let (o, log) = g.attack(MonsterId(0), true);
    assert_eq!(o, CombatOutcome::Ongoing);
    assert_eq!(log.len(), 2);
    let log = g.flee(MonsterId(0));
    assert!(log.len() == 2 || log.len() == 3);
}

#[test]
fn flee_can_drop_the_carried_item() {
    let mut g = fresh_state(3);
    g.monsters.move_to(MonsterId(0), RoomId(0));
    let log = g.flee_with(MonsterId(0), true, true);
    assert_eq!(log, vec!["You dodge the attack!", "You flee from the Zombie.", "You drop your Backpack in the panic!"]);
    assert_eq!(g.registry.owner_of(ItemId(0)), Some(Owner::Room(RoomId(0))));
    // nothing left to drop
    let log = g.flee_with(MonsterId(0), true, true);
    assert_eq!(log.len(), 2);
    let log = g.flee_with(MonsterId(0), false, false);
    assert_eq!(log, vec!["The Zombie hits you for 2 damage.", "You flee from the Zombie."]);
}

#[test]
fn error_messages() {
    assert_eq!(ItemError::ItemNotFound(ItemId(3)).message(), "no such item: ItemId(3)");
    assert_eq!(ItemError::NoItemsInRoom(RoomId(2)).message(), "no items found in RoomId(2)");
    assert_eq!(MonsterError::MonsterNotFound(MonsterId(4)).message(), "no such monster: MonsterId(4)");
    assert_eq!(MoveError::InvalidMovement(Direction::North).message(), "You can't go this way: North");
    assert_eq!(MoveError::NoMovesRemaining.message(), "No moves remaining");
    assert_eq!(ConfigError::InvalidConfig.message(), "check the toml file");
}

#[test]
fn unique_monster_ids() {
    let mut monsters = new_monsters();
    assert!(monsters.has_unique_ids());
    assert!(MonsterRegistry::new().has_unique_ids());
    let ghoul = MonsterTemplate { name: "Ghoul".to_string(), health: 5, strength: 1, speed: 1 };
    monsters.add_monster_instance(ghoul.spawn(MonsterId(1), Some(RoomId(2))));
    monsters.add_monster_instance(ghoul.spawn(MonsterId(1), Some(RoomId(3))));
    assert!(monsters.has_unique_ids());
    monsters.monster_mut(MonsterId(1)).unwrap().id = MonsterId(0);
    assert!(!monsters.has_unique_ids());
}
