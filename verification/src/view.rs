use vstd::prelude::*;
use crate::game_state::{item_label, GameState};
use crate::house::{name_spec, Direction, HouseError};
use crate::item::{ItemId, ItemRegistry};
use crate::monster::{in_room, lookup, Monster, MonsterId, MonsterRegistry};
use crate::player::Player;
use crate::text::{int_text, int_to_string, join3, texts};
use vstd::string::StringExecFns;

verus! {

/// `parts` written one after another, with `sep` between each two.
pub open spec fn joined(parts: Seq<Seq<char>>, sep: Seq<char>) -> Seq<char>
    decreases parts.len(),
{
    if parts.len() == 0 {
        Seq::empty()
    } else if parts.len() == 1 {
        parts[0]
    } else {
        joined(parts.drop_last(), sep) + sep + parts.last()
    }
}

/// The names of the monsters, in order.
pub open spec fn names_of(ms: Seq<Monster>) -> Seq<Seq<char>> {
    ms.map_values(|m: Monster| m.name@)
}

/// The names of the directions, in order.
pub open spec fn direction_names(ds: Seq<Direction>) -> Seq<Seq<char>> {
    ds.map_values(|d: Direction| name_spec(d))
}

/// The line about the monsters in the room: none when there are none.
pub open spec fn monster_line(names: Seq<Seq<char>>) -> Seq<char> {
    if names.len() == 0 {
        Seq::empty()
    } else {
        "\nA "@ + joined(names, ", "@) + " growls, chained in the corner."@
    }
}

/// The log panel: where the player is, the exits, the last message and the monsters.
pub open spec fn log_spec(room_name: Seq<char>, exits: Seq<Direction>, message: Seq<char>, names: Seq<Seq<char>>) -> Seq<char> {
    "Location: "@ + room_name + "\nExits: "@ + joined(direction_names(exits), ", "@) + "\n"@ + message + "\n"@
        + monster_line(names) + "\n"@
}

/// The player's stats panel.
pub open spec fn stats_spec(strength: i32, speed: i32, moves: i32) -> Seq<char> {
    "\n  strength: "@ + int_text(strength as int) + " \n  speed: "@ + int_text(speed as int)
        + "\n  Moves Remaining: "@ + int_text(moves as int)
}

/// The label of the player's health bar.
pub open spec fn health_label_spec(health: i32, max_health: i32) -> Seq<char> {
    "\n  "@ + int_text(health as int) + "/"@ + int_text(max_health as int) + " HP"@
}

/// What the health bar of the monster being fought shows: its name, its health (not below
/// zero) and its full health; an unknown monster shows as "???" with nothing left of one.
pub open spec fn fight_gauge_spec(monsters: Seq<Monster>, id: MonsterId) -> (Seq<char>, i32, i32) {
    match lookup(monsters, id) {
        Some(m) => (m.name@, if m.health > 0 { m.health } else { 0i32 }, m.max_health),
        None => ("???"@, 0i32, 1i32),
    }
}

/// The label of the monster's health bar.
pub open spec fn gauge_label_spec(name: Seq<char>, health: i32, max_health: i32) -> Seq<char> {
    name + ": "@ + int_text(health as int) + "/"@ + int_text(max_health as int) + " HP"@
}

/// The list joined with `sep` between each two entries.
fn join_with(parts: &Vec<String>, sep: &str) -> (r: String)
    ensures
        r@ == joined(texts(parts@), sep@),
{
    let mut r = String::new();
    let mut i: usize = 0;
    while i < parts.len()
        invariant
            i <= parts@.len(),
            r@ == joined(texts(parts@).take(i as int), sep@),
        decreases parts@.len() - i,
    {
        proof {
            let t = texts(parts@).take(i + 1);
            assert(t.drop_last() =~= texts(parts@).take(i as int));
            assert(t.last() == parts@[i as int]@);
            if i == 0 {
                assert(t.len() == 1);
            }
        }
        if i > 0 {
            r.append(sep);
        }
        r.append(parts[i].as_str());
        i = i + 1;
    }
    proof {
        assert(texts(parts@).take(parts@.len() as int) =~= texts(parts@));
    }
    r
}

/// The log panel for the room the player stands in, with `message` as the last message; an
/// error when that room does not exist.
pub fn log_text(state: &GameState, message: &str) -> (r: Result<String, HouseError>)
    ensures
        match r {
            Ok(t) => state.house.rooms@.contains_key(state.player.current_room.0) && t@ == log_spec(
                state.house.rooms@[state.player.current_room.0].content.name@,
                state.house.rooms@[state.player.current_room.0].exits.present(),
                message@,
                names_of(in_room(state.monsters@, state.player.current_room)),
            ),
            Err(e) => !state.house.rooms@.contains_key(state.player.current_room.0)
                && e == HouseError::RoomNotFound(state.player.current_room),
        },
{
    let here = state.monsters.monsters_in(state.player.current_room);
    let ghost ms = in_room(state.monsters@, state.player.current_room);
    let mut names: Vec<String> = Vec::new();
    let mut i: usize = 0;
    while i < here.len()
        invariant
            i <= here@.len(),
            here@.map_values(|m: &Monster| *m) == ms,
            texts(names@) == names_of(ms).take(i as int),
        decreases here@.len() - i,
    {
        proof {
            assert(*here@[i as int] == ms[i as int]);
        }
        let ghost before = names@;
        names.push(here[i].name.clone());
        proof {
            assert(texts(names@) =~= texts(before).push(ms[i as int].name@));
            assert(names_of(ms).take(i + 1) =~= names_of(ms).take(i as int).push(ms[i as int].name@));
        }
        i = i + 1;
    }
    proof {
        assert(names_of(ms).take(here@.len() as int) =~= names_of(ms));
    }
    let room = match state.current_room() {
        Ok(room) => room,
        Err(e) => {
            return Err(e);
        },
    };
    let dirs = room.exits.directions();
    let mut exit_names: Vec<String> = Vec::new();
    let mut j: usize = 0;
    while j < dirs.len()
        invariant
            j <= dirs@.len(),
            texts(exit_names@) == direction_names(dirs@).take(j as int),
        decreases dirs@.len() - j,
    {
        let ghost before = exit_names@;
        exit_names.push(String::from_str(dirs[j].name()));
        proof {
            assert(texts(exit_names@) =~= texts(before).push(name_spec(dirs@[j as int])));
            assert(direction_names(dirs@).take(j + 1) =~= direction_names(dirs@).take(j as int).push(name_spec(dirs@[j as int])));
        }
        j = j + 1;
    }
    proof {
        assert(direction_names(dirs@).take(dirs@.len() as int) =~= direction_names(dirs@));
    }
    let monsters = if names.len() == 0 {
        String::new()
    } else {
        let list = join_with(&names, ", ");
        join3("\nA ", list.as_str(), " growls, chained in the corner.")
    };
    let exits = join_with(&exit_names, ", ");
    let mut t = String::from_str("Location: ");
    t.append(room.content.name.as_str());
    t.append("\nExits: ");
    t.append(exits.as_str());
    t.append("\n");
    t.append(message);
    t.append("\n");
    t.append(monsters.as_str());
    t.append("\n");
    Ok(t)
}

/// The player's stats panel: strength, speed and the moves left.
pub fn stats_text(p: &Player) -> (r: String)
    ensures
        r@ == stats_spec(p.strength, p.speed, p.moves_remaining),
{
    let mut t = String::from_str("\n  strength: ");
    t.append(int_to_string(p.strength).as_str());
    t.append(" \n  speed: ");
    t.append(int_to_string(p.speed).as_str());
    t.append("\n  Moves Remaining: ");
    t.append(int_to_string(p.moves_remaining).as_str());
    t
}

/// The label of the player's health bar: current and full health.
pub fn health_label(p: &Player) -> (r: String)
    ensures
        r@ == health_label_spec(p.health, p.max_health),
{
    let mut t = String::from_str("\n  ");
    t.append(int_to_string(p.health).as_str());
    t.append("/");
    t.append(int_to_string(p.max_health).as_str());
    t.append(" HP");
    t
}

/// What the health bar of monster `id` shows: name, health (not below zero) and full health.
pub fn fight_gauge(monsters: &MonsterRegistry, id: MonsterId) -> (r: (String, i32, i32))
    ensures
        (r.0@, r.1, r.2) == fight_gauge_spec(monsters@, id),
{
    match monsters.monster(id) {
        Ok(m) => {
            let health = if m.health > 0 { m.health } else { 0 };
            (m.name.clone(), health, m.max_health)
        },
        Err(_) => (String::from_str("???"), 0, 1),
    }
}

/// The label of a monster's health bar: name, health and full health.
pub fn gauge_label(name: &str, health: i32, max_health: i32) -> (r: String)
    ensures
        r@ == gauge_label_spec(name@, health, max_health),
{
    let mut t = String::from_str(name);
    t.append(": ");
    t.append(int_to_string(health).as_str());
    t.append("/");
    t.append(int_to_string(max_health).as_str());
    t.append(" HP");
    t
}

/// The names shown for the items `ids`, in order: each item's name, or "something".
pub fn item_names(registry: &ItemRegistry, ids: &Vec<ItemId>) -> (r: Vec<String>)
    ensures
        texts(r@) == ids@.map_values(|i: ItemId| item_label(registry.items@, i)),
{
    let mut r: Vec<String> = Vec::new();
    let mut i: usize = 0;
    while i < ids.len()
        invariant
            i <= ids@.len(),
            texts(r@) == ids@.map_values(|i: ItemId| item_label(registry.items@, i)).take(i as int),
        decreases ids@.len() - i,
    {
        let name = match registry.name_of(ids[i]) {
            Some(n) => n,
            None => "something",
        };
        let ghost before = r@;
        r.push(String::from_str(name));
        proof {
            let labels = ids@.map_values(|i: ItemId| item_label(registry.items@, i));
            assert(texts(r@) =~= texts(before).push(item_label(registry.items@, ids@[i as int])));
            assert(labels.take(i + 1) =~= labels.take(i as int).push(item_label(registry.items@, ids@[i as int])));
        }
        i = i + 1;
    }
    proof {
        assert(ids@.map_values(|i: ItemId| item_label(registry.items@, i)).take(ids@.len() as int)
            =~= ids@.map_values(|i: ItemId| item_label(registry.items@, i)));
    }
    r
}

} // verus!
