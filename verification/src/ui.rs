use vstd::prelude::*;
use crate::engine::{CombatInfo, PlayerAction};
use crate::house::Direction;
use crate::item::ItemId;
use crate::monster::MonsterId;

verus! {

/// The menu shown during a fight.
#[derive(Debug, Clone, Copy, PartialEq, Eq, Structural)]
pub enum CombatMenu {
    Main,
    ItemSelect,
}

/// The fight shown on screen.
#[derive(Debug, Clone, Copy, PartialEq, Eq, Structural)]
pub struct CombatState {
    pub monster_id: MonsterId,
    pub monster_attacks_first: bool,
    pub state: CombatMenu,
}

/// What the screen is showing: the house, or a fight.
#[derive(Debug, Clone, Copy, PartialEq, Eq, Structural)]
pub enum AppMode {
    Exploring,
    Combat(CombatState),
}

/// A key the player pressed.
#[derive(Debug, Clone, Copy, PartialEq, Eq, Structural)]
pub enum Key {
    Tab,
    BackTab,
    Char(char),
    Up,
    Down,
    Left,
    Right,
    Other,
}

/// What a key asks for while exploring.
#[derive(Debug, Clone, Copy, PartialEq, Eq, Structural)]
pub enum ExploreCommand {
    /// Select the next carried item.
    SelectNext,
    /// Select the previous carried item.
    SelectPrevious,
    /// Drop the selected item.
    DropSelected,
    /// Hand an action to the engine.
    Act(PlayerAction),
    /// Nothing.
    Ignore,
}

/// What a key asks for during a fight.
#[derive(Debug, Clone, Copy, PartialEq, Eq, Structural)]
pub enum CombatCommand {
    Fight,
    Flee,
    Ignore,
}

pub open spec fn explore_command_spec(key: Key) -> ExploreCommand {
    match key {
        Key::Tab => ExploreCommand::SelectNext,
        Key::BackTab => ExploreCommand::SelectPrevious,
        Key::Char('f') => ExploreCommand::Act(PlayerAction::EngageMonster),
        Key::Char('s') => ExploreCommand::Act(PlayerAction::Search),
        Key::Char('a') => ExploreCommand::Act(PlayerAction::PickUp),
        Key::Char('d') => ExploreCommand::DropSelected,
        Key::Char(' ') => ExploreCommand::Act(PlayerAction::EndTurn),
        Key::Up => ExploreCommand::Act(PlayerAction::Move(Direction::North)),
        Key::Down => ExploreCommand::Act(PlayerAction::Move(Direction::South)),
        Key::Right => ExploreCommand::Act(PlayerAction::Move(Direction::East)),
        Key::Left => ExploreCommand::Act(PlayerAction::Move(Direction::West)),
        _ => ExploreCommand::Ignore,
    }
}

/// The key bindings while exploring: Tab and Shift-Tab cycle the inventory selection, `f`
/// engages a monster, `s` searches, `a` picks up, `d` drops the selection, space ends the
/// turn and the arrow keys move.
pub fn explore_command(key: Key) -> (c: ExploreCommand)
    ensures
        c == explore_command_spec(key),
{
    match key {
        Key::Tab => ExploreCommand::SelectNext,
        Key::BackTab => ExploreCommand::SelectPrevious,
        Key::Char(ch) => {
            if ch == 'f' {
                ExploreCommand::Act(PlayerAction::EngageMonster)
            } else if ch == 's' {
                ExploreCommand::Act(PlayerAction::Search)
            } else if ch == 'a' {
                ExploreCommand::Act(PlayerAction::PickUp)
            } else if ch == 'd' {
                ExploreCommand::DropSelected
            } else if ch == ' ' {
                ExploreCommand::Act(PlayerAction::EndTurn)
            } else {
                ExploreCommand::Ignore
            }
        },
        Key::Up => ExploreCommand::Act(PlayerAction::Move(Direction::North)),
        Key::Down => ExploreCommand::Act(PlayerAction::Move(Direction::South)),
        Key::Right => ExploreCommand::Act(PlayerAction::Move(Direction::East)),
        Key::Left => ExploreCommand::Act(PlayerAction::Move(Direction::West)),
        Key::Other => ExploreCommand::Ignore,
    }
}

/// The key bindings during a fight: `f` fights a round, `r` runs.
pub fn combat_command(key: Key) -> (c: CombatCommand)
    ensures
        c == match key {
            Key::Char('f') => CombatCommand::Fight,
            Key::Char('r') => CombatCommand::Flee,
            _ => CombatCommand::Ignore,
        },
{
    match key {
        Key::Char(ch) => {
            if ch == 'f' {
                CombatCommand::Fight
            } else if ch == 'r' {
                CombatCommand::Flee
            } else {
                CombatCommand::Ignore
            }
        },
        _ => CombatCommand::Ignore,
    }
}

/// The inventory selection after Tab: the next of `count` items, wrapping around, or the first
/// when nothing was selected; unchanged when there are no items.
pub fn next_selection(selected: Option<usize>, count: usize) -> (r: Option<usize>)
    ensures
        r == if count == 0 {
            selected
        } else {
            match selected {
                Some(i) => Some(((i + 1) % (count as int)) as usize),
                None => Some(0usize),
            }
        },
{
    if count == 0 {
        return selected;
    }
    match selected {
        Some(i) => {
            let m = i % count;
            let r = if m + 1 == count { 0 } else { m + 1 };
            proof {
                let c = count as int;
                let q = i as int / c;
                vstd::arithmetic::div_mod::lemma_fundamental_div_mod(i as int, c);
                assert(i + 1 == c * q + (m + 1));
                vstd::arithmetic::div_mod::lemma_mod_multiples_vanish(q, m + 1, c);
                vstd::arithmetic::div_mod::lemma_mod_self_0(c);
                if m + 1 < count {
                    vstd::arithmetic::div_mod::lemma_small_mod((m + 1) as nat, count as nat);
                }
            }
            Some(r)
        },
        None => Some(0),
    }
}

/// The inventory selection after Shift-Tab: the previous of `count` items, wrapping around,
/// or the first when nothing was selected; unchanged when there are no items.
pub fn previous_selection(selected: Option<usize>, count: usize) -> (r: Option<usize>)
    ensures
        r == if count == 0 {
            selected
        } else {
            match selected {
                Some(i) => Some(((i + count - 1) % (count as int)) as usize),
                None => Some(0usize),
            }
        },
{
    if count == 0 {
        return selected;
    }
    match selected {
        Some(i) => {
            let m = i % count;
            let r = if m == 0 { count - 1 } else { m - 1 };
            proof {
                let c = count as int;
                let q = i as int / c;
                vstd::arithmetic::div_mod::lemma_fundamental_div_mod(i as int, c);
                if m == 0 {
                    assert(i + c - 1 == c * q + (c - 1));
                    vstd::arithmetic::div_mod::lemma_mod_multiples_vanish(q, c - 1, c);
                    vstd::arithmetic::div_mod::lemma_small_mod((count - 1) as nat, count as nat);
                } else {
                    assert(c * (q + 1) == c * q + c) by (nonlinear_arith);
                    assert(i + c - 1 == c * (q + 1) + (m - 1));
                    vstd::arithmetic::div_mod::lemma_mod_multiples_vanish(q + 1, m - 1, c);
                    vstd::arithmetic::div_mod::lemma_small_mod((m - 1) as nat, count as nat);
                }
            }
            Some(r)
        },
        None => Some(0),
    }
}

/// The screen to show for the fight the engine reports: the fight, at its main menu, or the house.
pub fn mode_for(combat: Option<CombatInfo>) -> (m: AppMode)
    ensures
        m == match combat {
            Some(ci) => AppMode::Combat(CombatState {
                monster_id: ci.monster_id,
                monster_attacks_first: ci.monster_attacks_first,
                state: CombatMenu::Main,
            }),
            None => AppMode::Exploring,
        },
{
    match combat {
        Some(ci) => AppMode::Combat(CombatState {
            monster_id: ci.monster_id,
            monster_attacks_first: ci.monster_attacks_first,
            state: CombatMenu::Main,
        }),
        None => AppMode::Exploring,
    }
}

/// The item to drop: the one at the selected place of the carried `items`; otherwise the
/// message to show, "Nothing selected" when there is no selection and "Nothing Selected" when
/// the selection is past the end of the list.
pub fn selected_item(selected: Option<usize>, items: &Vec<ItemId>) -> (r: Result<ItemId, &'static str>)
    ensures
        match selected {
            Some(i) => if i < items@.len() {
                r == Ok::<ItemId, &'static str>(items@[i as int])
            } else {
                r matches Err(m) && m@ == "Nothing Selected"@
            },
            None => r matches Err(m) && m@ == "Nothing selected"@,
        },
{
    match selected {
        Some(i) => if i < items.len() {
            Ok(items[i])
        } else {
            Err("Nothing Selected")
        },
        None => Err("Nothing selected"),
    }
}

/// The message after dropping an item: whether the player was carrying it decides.
pub fn drop_message(carried: bool) -> (r: &'static str)
    ensures
        r@ == if carried { "Dropped it."@ } else { "Couldn't drop that."@ },
{
    if carried {
        "Dropped it."
    } else {
        "Couldn't drop that."
    }
}

/// The shares, in percent, of the three bands that centre a band of `percent` percent: equal
/// margins on both sides.
pub fn centered_percentages(percent: u16) -> (r: (u16, u16, u16))
    requires
        percent <= 100,
    ensures
        r.0 == (100 - percent) / 2,
        r.1 == percent,
        r.2 == (100 - percent) / 2,
{
    let margin = (100 - percent) / 2;
    (margin, percent, margin)
}

} // verus!
