use house_explorer::engine::{CombatInfo, GameEngine, GameError, GameUpdate, PlayerAction};
use house_explorer::event::EventQueue;
use house_explorer::game_state::GameState;
use house_explorer::house::{Direction, RoomId};
use house_explorer::item::{ItemId, Owner};
use house_explorer::monster::MonsterId;
use house_explorer::player::PlayerConfig;
use house_explorer::setup::{basement_spawn, build_house, create_player, new_monsters, new_registry};
use house_explorer::ui::{
    centered_percentages, combat_command, drop_message, explore_command, mode_for, selected_item, next_selection, previous_selection, AppMode, CombatCommand, CombatMenu,
    CombatState, ExploreCommand, Key,
};

fn engine(speed: i32) -> GameEngine {
    let config = PlayerConfig { name: "Ada".to_string(), health: 10, strength: 4, speed };
    let state = GameState::new(build_house(), create_player(config), new_registry(), new_monsters(), EventQueue::new(), basement_spawn(), None);
    GameEngine::new(state)
}

fn go(e: &mut GameEngine, d: Direction) -> GameUpdate {
    e.apply_action(PlayerAction::Move(d)).unwrap()
}

#[test]
fn updates() {
    let u = GameUpdate::message("hi");
    assert_eq!(u.messages, vec!["hi"]);
    assert!(u.pending_combat.is_none());
    assert!(GameUpdate::empty().messages.is_empty());
    let u = GameUpdate::new(vec!["a".to_string()], Some(MonsterId(2)));
    assert_eq!(u.pending_combat, Some(MonsterId(2)));
}

#[test]
fn error_texts() {
    assert_eq!(GameError::InvalidMove.message(), "Can't go that way");
    assert_eq!(GameError::NoMovesRemaining.message(), "No moves left");
    assert_eq!(GameError::NoItemsInRoom.message(), "Nothing here to pick up");
    assert_eq!(GameError::NothingToPickUp.message(), "Nothing to pick up - search first with [s]");
    assert_eq!(GameError::ItemNotFound.message(), "Item not found");
    assert_eq!(GameError::NoMonsterToFight.message(), "There's nothing to fight here");
    assert_eq!(GameError::MonsterNotFound(MonsterId(1)).message(), "Monster not found");
}

#[test]
fn new_engine_is_not_in_combat() {
    let e = engine(5);
    assert!(!e.in_combat());
    assert!(e.current_combat().is_none());
    assert_eq!(e.get_state().player.current_room, RoomId(0));
    assert_eq!(e.get_player_inventory(), vec![ItemId(0)]);
}

#[test]
fn bad_move_is_reported_as_a_message() {
    let mut e = engine(5);
    let u = go(&mut e, Direction::West);
    assert_eq!(u.messages, vec!["Can't go that way"]);
    assert_eq!(e.get_state().player.current_room, RoomId(0));
}

#[test]
fn search_pick_up_and_drop() {
    let mut e = engine(10);
    let u = e.apply_action(PlayerAction::Search).unwrap();
    assert_eq!(u.messages, vec!["Nothing here to pick up"]);
    let u = e.apply_action(PlayerAction::PickUp).unwrap();
    assert_eq!(u.messages, vec!["Nothing to pick up - search first with [s]"]);
    go(&mut e, Direction::East);
    go(&mut e, Direction::North);
    go(&mut e, Direction::North);
    go(&mut e, Direction::West);
    assert_eq!(e.get_state().player.current_room, RoomId(4));
    let u = e.apply_action(PlayerAction::Search).unwrap();
    assert_eq!(u.messages, vec!["You found: Crowbar"]);
    let u = e.apply_action(PlayerAction::PickUp).unwrap();
    assert_eq!(u.messages, vec!["You picked it up."]);
    assert_eq!(e.get_state().registry.owner_of(ItemId(2)), Some(Owner::Player));
    let mut inv = e.get_player_inventory();
    inv.sort_by_key(|i| i.0);
    assert_eq!(inv, vec![ItemId(0), ItemId(2)]);
    let u = e.apply_action(PlayerAction::PickUp).unwrap();
    assert_eq!(u.messages, vec!["Nothing to pick up - search first with [s]"]);
    let u = e.apply_action(PlayerAction::Drop(ItemId(2))).unwrap();
    assert_eq!(u.messages, vec!["Dropped it"]);
    assert_eq!(e.get_state().registry.owner_of(ItemId(2)), Some(Owner::Room(RoomId(4))));
    let u = e.apply_action(PlayerAction::Drop(ItemId(2))).unwrap();
    assert_eq!(u.messages, vec!["Item not found"]);
}

#[test]
fn fighting_without_a_monster_is_refused() {
    let mut e = engine(5);
    assert!(matches!(e.apply_action(PlayerAction::Attack), Err(GameError::NoMonsterToFight)));
    assert!(matches!(e.apply_action(PlayerAction::Flee), Err(GameError::NoMonsterToFight)));
    assert!(matches!(e.apply_action(PlayerAction::EngageMonster), Err(GameError::NoMonsterToFight)));
    assert!(!e.in_combat());
}

#[test]
fn entering_the_basement_starts_an_ambush() {
    let mut e = engine(10);
    go(&mut e, Direction::East);
    go(&mut e, Direction::North);
    go(&mut e, Direction::North);
    go(&mut e, Direction::East);
    let u = go(&mut e, Direction::South);
    assert_eq!(e.get_state().player.current_room, RoomId(6));
    assert_eq!(u.messages, vec!["Something lurches out of the shadows!"]);
    assert_eq!(u.pending_combat, Some(MonsterId(0)));
    assert!(e.in_combat());
    let c = e.current_combat().unwrap();
    assert_eq!(c.monster_id, MonsterId(0));
    assert!(c.monster_attacks_first);
    // fight with the dice fixed: every blow dodged
    let u = e.apply_action_rolled(PlayerAction::Attack, true, false).unwrap();
    assert_eq!(u.messages, vec!["You dodge the attack!", "You hit the Zombie for 4 damage."]);
    assert_eq!(u.pending_combat, Some(MonsterId(0)));
    e.apply_action_rolled(PlayerAction::Attack, true, false).unwrap();
    e.apply_action_rolled(PlayerAction::Attack, true, false).unwrap();
    let u = e.apply_action_rolled(PlayerAction::Attack, true, false).unwrap();
    assert_eq!(u.messages.last().unwrap(), "The Zombie falls.");
    assert_eq!(u.pending_combat, None);
    assert!(!e.in_combat());
    assert!(e.get_state().monsters.monster(MonsterId(0)).is_err());
}

#[test]
fn engage_and_flee() {
    let mut e = engine(10);
    go(&mut e, Direction::East);
    go(&mut e, Direction::North);
    go(&mut e, Direction::North);
    go(&mut e, Direction::East);
    go(&mut e, Direction::South);
    let u = e.apply_action_rolled(PlayerAction::Flee, false, false).unwrap();
    assert_eq!(u.messages, vec!["The Zombie hits you for 2 damage.", "You flee from the Zombie."]);
    assert!(!e.in_combat());
    assert_eq!(e.get_state().player.health, 8);
    let u = e.apply_action(PlayerAction::EngageMonster).unwrap();
    assert_eq!(u.messages, vec!["A Zombie blocks your path"]);
    assert!(e.in_combat());
    let u = e.apply_action(PlayerAction::Flee).unwrap();
    assert!(u.messages.len() >= 2);
    assert!(!e.in_combat());
}

#[test]
fn ending_the_turn_brings_the_monster_closer() {
    let mut e = engine(10);
    go(&mut e, Direction::East);
    go(&mut e, Direction::North);
    go(&mut e, Direction::North);
    go(&mut e, Direction::East);
    go(&mut e, Direction::South);
    e.apply_action_rolled(PlayerAction::Flee, true, false).unwrap();
    // walk away: basement -> kitchen -> hallway
    go(&mut e, Direction::South);
    go(&mut e, Direction::West);
    let u = e.apply_action(PlayerAction::EndTurn).unwrap();
    assert_eq!(u.messages, vec!["You end your turn."]);
    assert_eq!(e.get_state().player.moves_remaining, 10);
    assert_eq!(e.get_state().monsters.monster(MonsterId(0)).unwrap().current_room, Some(RoomId(2)));
    let u = e.apply_action(PlayerAction::EndTurn).unwrap();
    assert_eq!(u.messages, vec!["You end your turn."]);
    assert_eq!(e.get_state().monsters.monster(MonsterId(0)).unwrap().current_room, Some(RoomId(1)));
    assert!(!e.in_combat());
    // the zombie now stands in the player's room; moving there again notices it
    go(&mut e, Direction::East);
    let u = go(&mut e, Direction::West);
    assert_eq!(u.messages, vec!["a Zombie notices you"]);
    assert!(e.in_combat());
}

#[test]
fn key_bindings() {
    assert_eq!(explore_command(Key::Tab), ExploreCommand::SelectNext);
    assert_eq!(explore_command(Key::BackTab), ExploreCommand::SelectPrevious);
    assert_eq!(explore_command(Key::Char('s')), ExploreCommand::Act(PlayerAction::Search));
    assert_eq!(explore_command(Key::Char('a')), ExploreCommand::Act(PlayerAction::PickUp));
    assert_eq!(explore_command(Key::Char('f')), ExploreCommand::Act(PlayerAction::EngageMonster));
    assert_eq!(explore_command(Key::Char('d')), ExploreCommand::DropSelected);
    assert_eq!(explore_command(Key::Char(' ')), ExploreCommand::Act(PlayerAction::EndTurn));
    assert_eq!(explore_command(Key::Up), ExploreCommand::Act(PlayerAction::Move(Direction::North)));
    assert_eq!(explore_command(Key::Left), ExploreCommand::Act(PlayerAction::Move(Direction::West)));
    assert_eq!(explore_command(Key::Char('x')), ExploreCommand::Ignore);
    assert_eq!(combat_command(Key::Char('f')), CombatCommand::Fight);
    assert_eq!(combat_command(Key::Char('r')), CombatCommand::Flee);
    assert_eq!(combat_command(Key::Up), CombatCommand::Ignore);
}

#[test]
fn inventory_selection_cycles() {
    assert_eq!(next_selection(None, 3), Some(0));
    assert_eq!(next_selection(Some(0), 3), Some(1));
    assert_eq!(next_selection(Some(2), 3), Some(0));
    assert_eq!(next_selection(Some(1), 0), Some(1));
    assert_eq!(previous_selection(None, 3), Some(0));
    assert_eq!(previous_selection(Some(0), 3), Some(2));
    assert_eq!(previous_selection(Some(2), 3), Some(1));
    assert_eq!(previous_selection(None, 0), None);
    assert_eq!(next_selection(Some(usize::MAX), 2), Some(0));
    for i in 0..5 {
        assert_eq!(previous_selection(next_selection(Some(i), 5), 5), Some(i));
    }
}

#[test]
fn screen_follows_the_fight() {
    assert_eq!(mode_for(None), AppMode::Exploring);
    let fight = CombatInfo { monster_id: MonsterId(0), monster_attacks_first: true };
    assert_eq!(
        mode_for(Some(fight)),
        AppMode::Combat(CombatState { monster_id: MonsterId(0), monster_attacks_first: true, state: CombatMenu::Main })
    );
    let mut e = engine(10);
    let u = e.apply_action(PlayerAction::EngageMonster);
    assert_eq!(u.unwrap_err(), GameError::NoMonsterToFight);
    assert_eq!(mode_for(e.current_combat().copied()), AppMode::Exploring);
}

#[test]
fn dropping_the_selection() {
    let items = vec![ItemId(4), ItemId(7)];
    assert_eq!(selected_item(Some(1), &items), Ok(ItemId(7)));
    assert_eq!(selected_item(Some(2), &items), Err("Nothing Selected"));
    assert_eq!(selected_item(None, &items), Err("Nothing selected"));
    assert_eq!(drop_message(true), "Dropped it.");
    assert_eq!(drop_message(false), "Couldn't drop that.");
    assert_eq!(centered_percentages(70), (15, 70, 15));
    assert_eq!(centered_percentages(100), (0, 100, 0));
    assert_eq!(centered_percentages(33), (33, 33, 33));
}
