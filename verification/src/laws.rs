use vstd::prelude::*;
use crate::combat::{monster_after_round, CombatOutcome};
use crate::engine::{engine_step, CombatInfo, GameError, PlayerAction, UpdateView};
use crate::game_state::{all_chase, chases, on_arrival, ArrivalView, GameState};
use crate::house::{
    connected, connected_two_way, delta_spec, grid_key, opposite_spec, Direction, Floor, Room, RoomId,
};
use crate::item::{owned_by, ItemId, Owner};
use crate::monster::{
    has_monster, ids_unique, in_room, lemma_first_exists, lemma_unique_lookup, lookup, stands_in, moved_monster, position_of, with_monster,
    without_monster, Monster, MonsterId,
};
use crate::navigation::{edge, first_shortest_step, is_path, is_shortest_step, reachable, route_within};
use crate::game_state::monsters_after_attack;
use crate::house::ExitMap;
use crate::ui::{explore_command_spec, ExploreCommand, Key};
use crate::player::{destination, Player};
use crate::room_event::RoomEventKind;

verus! {

/// Turning around twice faces the original direction, and turning around always changes it.
pub proof fn law_opposite_involutive(d: Direction)
    ensures
        opposite_spec(opposite_spec(d)) == d,
        opposite_spec(d) != d,
{
}

/// A step in the opposite direction undoes a step.
pub proof fn law_opposite_delta(d: Direction)
    ensures
        delta_spec(opposite_spec(d)).0 == -delta_spec(d).0,
        delta_spec(opposite_spec(d)).1 == -delta_spec(d).1,
{
}

/// Two grid positions, or floors, that differ have different keys in the position grid.
pub proof fn law_grid_key_injective(x1: i32, y1: i32, f1: Floor, x2: i32, y2: i32, f2: Floor)
    requires
        grid_key(x1, y1, f1) == grid_key(x2, y2, f2),
    ensures
        x1 == x2 && y1 == y2 && f1 == f2,
{
    let a1 = x1 as int + 0x8000_0000;
    let b1 = y1 as int + 0x8000_0000;
    let a2 = x2 as int + 0x8000_0000;
    let b2 = y2 as int + 0x8000_0000;
    let k1 = (a1 * 0x1_0000_0000 + b1) * 4 + crate::house::floor_index(f1);
    let k2 = (a2 * 0x1_0000_0000 + b2) * 4 + crate::house::floor_index(f2);
    assert(0 <= a1 * 0x1_0000_0000 + b1 <= 0xffff_ffff_ffff_ffff) by (nonlinear_arith)
        requires 0 <= a1 < 0x1_0000_0000, 0 <= b1 < 0x1_0000_0000;
    assert(0 <= a2 * 0x1_0000_0000 + b2 <= 0xffff_ffff_ffff_ffff) by (nonlinear_arith)
        requires 0 <= a2 < 0x1_0000_0000, 0 <= b2 < 0x1_0000_0000;
    assert(k1 == k2);
    assert(crate::house::floor_index(f1) == crate::house::floor_index(f2)) by (nonlinear_arith)
        requires
            k1 == k2,
            k1 == (a1 * 0x1_0000_0000 + b1) * 4 + crate::house::floor_index(f1),
            k2 == (a2 * 0x1_0000_0000 + b2) * 4 + crate::house::floor_index(f2),
            0 <= crate::house::floor_index(f1) < 4,
            0 <= crate::house::floor_index(f2) < 4,
    ;
    assert(a1 * 0x1_0000_0000 + b1 == a2 * 0x1_0000_0000 + b2);
    assert(a1 == a2 && b1 == b2) by (nonlinear_arith)
        requires
            a1 * 0x1_0000_0000 + b1 == a2 * 0x1_0000_0000 + b2,
            0 <= b1 < 0x1_0000_0000,
            0 <= b2 < 0x1_0000_0000,
    ;
}

/// After a one-way connection, walking out of `from` in direction `d` leads to `to`, and the
/// other exits and rooms are as before.
pub proof fn law_connect_leads_there(rooms: Map<usize, Room>, from: RoomId, d: Direction, to: RoomId)
    requires
        rooms.contains_key(from.0),
    ensures
        destination(connected(rooms, from, d, to)[from.0], d) == Some(to),
        edge(connected(rooms, from, d, to), from.0, to.0),
        forall|e: Direction| e != d ==> #[trigger] connected(rooms, from, d, to)[from.0].exits.at(e) == rooms[from.0].exits.at(e),
        forall|k: usize| k != from.0 && rooms.contains_key(k) ==> #[trigger] connected(rooms, from, d, to)[k] == rooms[k],
        connected(rooms, from, d, to).dom() == rooms.dom(),
{
    let m = connected(rooms, from, d, to);
    assert(m.dom() =~= rooms.dom());
    match d {
        Direction::North => assert(crate::navigation::leads_to(m[from.0].exits.north, to.0)),
        Direction::South => assert(crate::navigation::leads_to(m[from.0].exits.south, to.0)),
        Direction::East => assert(crate::navigation::leads_to(m[from.0].exits.east, to.0)),
        Direction::West => assert(crate::navigation::leads_to(m[from.0].exits.west, to.0)),
    }
}

/// After a two-way connection, `d` leads from `a` to `b`, and the opposite direction leads back.
pub proof fn law_two_way_round_trip(rooms: Map<usize, Room>, a: RoomId, d: Direction, b: RoomId)
    requires
        rooms.contains_key(a.0),
        rooms.contains_key(b.0),
    ensures
        destination(connected_two_way(rooms, a, d, b)[a.0], d) == Some(b),
        destination(connected_two_way(rooms, a, d, b)[b.0], opposite_spec(d)) == Some(a),
        edge(connected_two_way(rooms, a, d, b), a.0, b.0),
        edge(connected_two_way(rooms, a, d, b), b.0, a.0),
{
    let m1 = connected(rooms, a, d, b);
    law_connect_leads_there(rooms, a, d, b);
    law_connect_leads_there(m1, b, opposite_spec(d), a);
    law_opposite_involutive(d);
    let m2 = connected(m1, b, opposite_spec(d), a);
    if a.0 == b.0 {
        assert(m2[a.0].exits.at(d) == m1[a.0].exits.at(d));
    } else {
        assert(m2[a.0] == m1[a.0]);
    }
    match d {
        Direction::North => assert(crate::navigation::leads_to(m2[a.0].exits.north, b.0)),
        Direction::South => assert(crate::navigation::leads_to(m2[a.0].exits.south, b.0)),
        Direction::East => assert(crate::navigation::leads_to(m2[a.0].exits.east, b.0)),
        Direction::West => assert(crate::navigation::leads_to(m2[a.0].exits.west, b.0)),
    }
}

/// A monster chasing the player stays put or moves to an adjacent room, keeping everything but
/// its room; when it moves, it moves along a shortest route to the player, so the player can be
/// reached from its new room in one room fewer than along any route from its old room.
pub proof fn law_chase_moves_one_room(rooms: Map<usize, Room>, to: RoomId, before: Monster, after: Monster)
    requires
        chases(rooms, to, before, after),
    ensures
        after.id == before.id,
        after.name == before.name,
        after.health == before.health,
        after.speed == before.speed,
        after.strength == before.strength,
        after.current_room == before.current_room || (before.current_room matches Some(c)
            && after.current_room matches Some(n) && edge(rooms, c.0, n.0)
            && forall|q: Seq<usize>| #[trigger] is_path(rooms, q) && q[0] == c.0 && q.last() == to.0
                ==> route_within(rooms, n.0, to.0, q.len() - 1)),
{
}

/// When every monster chases the player at the end of a turn, each keeps its id in its place,
/// so ids stay unique.
pub proof fn law_chase_keeps_ids(rooms: Map<usize, Room>, to: RoomId, before: Seq<Monster>, after: Seq<Monster>)
    requires
        all_chase(rooms, to, before, after),
    ensures
        after.len() == before.len(),
        forall|i: int| 0 <= i < before.len() ==> (#[trigger] after[i]).id == before[i].id,
        ids_unique(before) ==> ids_unique(after),
{
    assert forall|i: int| 0 <= i < before.len() implies (#[trigger] after[i]).id == before[i].id by {
        assert(chases(rooms, to, before[i], after[i]));
    }
    if ids_unique(before) {
        assert forall|i: int, j: int| 0 <= i < after.len() && 0 <= j < after.len() && i != j implies (#[trigger] after[i]).id != (#[trigger] after[j]).id by {
            assert(after[i].id == before[i].id);
            assert(after[j].id == before[j].id);
        }
    }
}

/// Giving an item to an owner is what `owner_of` reads back; every other item keeps its owner.
pub proof fn law_assign_then_owner(ownership: Map<usize, Owner>, item: ItemId, owner: Owner, other: ItemId)
    ensures
        ownership.insert(item.0, owner).get(item.0) == Some(owner),
        other != item ==> ownership.insert(item.0, owner).get(other.0) == ownership.get(other.0),
{
}

/// No item is held by two owners at once.
pub proof fn law_single_owner(ownership: Map<usize, Owner>, o1: Owner, o2: Owner, item: ItemId)
    requires
        o1 != o2,
    ensures
        !(owned_by(ownership, o1).contains(item) && owned_by(ownership, o2).contains(item)),
{
}

/// Picking an item up and dropping it again in the same room leaves the ownership as it was.
pub proof fn law_pick_up_then_drop(s0: GameState, s1: GameState, s2: GameState, item: ItemId)
    requires
        s0.registry.ownership@.get(item.0) == Some(Owner::Room(s0.player.current_room)),
        s0.only_ownership_changed(&s1, s0.registry.ownership@.insert(item.0, Owner::Player)),
        s1.only_ownership_changed(&s2, s1.registry.ownership@.insert(item.0, Owner::Room(s1.player.current_room))),
    ensures
        s2.registry.ownership@ == s0.registry.ownership@,
        s2.player == s0.player,
{
    assert(s2.registry.ownership@ =~= s0.registry.ownership@);
}

/// Dropping a carried item and picking it up again leaves the ownership as it was.
pub proof fn law_drop_then_pick_up(s0: GameState, s1: GameState, s2: GameState, item: ItemId)
    requires
        s0.registry.ownership@.get(item.0) == Some(Owner::Player),
        s0.only_ownership_changed(&s1, s0.registry.ownership@.insert(item.0, Owner::Room(s0.player.current_room))),
        s1.only_ownership_changed(&s2, s1.registry.ownership@.insert(item.0, Owner::Player)),
    ensures
        s2.registry.ownership@ == s0.registry.ownership@,
{
    assert(s2.registry.ownership@ =~= s0.registry.ownership@);
}

/// A monster that was added is found by its id.
pub proof fn law_add_then_lookup(s: Seq<Monster>, m: Monster)
    ensures
        lookup(with_monster(s, m), m.id) == Some(m),
{
    let t = with_monster(s, m);
    if has_monster(s, m.id) {
        lemma_first_exists(s, m.id);
        let i = position_of(s, m.id);
        assert(t[i].id == m.id);
        lemma_first_exists(t, m.id);
        let j = position_of(t, m.id);
        if j < i {
            assert(t[j] == s[j]);
        } else if j > i {
            assert(t[i].id == m.id);
        }
    } else {
        assert(t[s.len() as int].id == m.id);
        lemma_first_exists(t, m.id);
        let j = position_of(t, m.id);
        if j < s.len() {
            assert(t[j] == s[j]);
        }
    }
}

/// Adding keeps ids unique.
pub proof fn law_add_keeps_ids_unique(s: Seq<Monster>, m: Monster)
    requires
        ids_unique(s),
    ensures
        ids_unique(with_monster(s, m)),
{
    let t = with_monster(s, m);
    if has_monster(s, m.id) {
        lemma_first_exists(s, m.id);
        let p = position_of(s, m.id);
        assert forall|i: int, j: int| 0 <= i < t.len() && 0 <= j < t.len() && i != j implies (#[trigger] t[i]).id != (#[trigger] t[j]).id by {
            if i == p {
                assert(s[p].id == m.id);
                assert(s[j].id != s[p].id);
            } else if j == p {
                assert(s[i].id != s[p].id);
            }
        }
    } else {
        assert forall|i: int, j: int| 0 <= i < t.len() && 0 <= j < t.len() && i != j implies (#[trigger] t[i]).id != (#[trigger] t[j]).id by {
            if i == s.len() {
                assert(s[j].id != m.id);
            } else if j == s.len() {
                assert(s[i].id != m.id);
            }
        }
    }
}

/// With unique ids, a removed monster is no longer found, and the others stay.
pub proof fn law_remove_then_absent(s: Seq<Monster>, id: MonsterId, other: MonsterId)
    requires
        ids_unique(s),
    ensures
        lookup(without_monster(s, id), id) is None,
        other != id && has_monster(s, other) ==> has_monster(without_monster(s, id), other),
        ids_unique(without_monster(s, id)),
{
    let t = without_monster(s, id);
    if has_monster(s, id) {
        lemma_first_exists(s, id);
        let p = position_of(s, id);
        assert forall|i: int| 0 <= i < t.len() implies (#[trigger] t[i]).id != id by {
            if i < p {
                assert(t[i] == s[i]);
            } else {
                assert(t[i] == s[i + 1]);
            }
        }
        if other != id && has_monster(s, other) {
            let j = choose|j: int| 0 <= j < s.len() && (#[trigger] s[j]).id == other;
            if j < p {
                assert(t[j] == s[j]);
            } else {
                assert(t[j - 1] == s[j]);
            }
        }
        assert forall|i: int, j: int| 0 <= i < t.len() && 0 <= j < t.len() && i != j implies (#[trigger] t[i]).id != (#[trigger] t[j]).id by {
            let si = if i < p { i } else { i + 1 };
            let sj = if j < p { j } else { j + 1 };
            assert(t[i] == s[si]);
            assert(t[j] == s[sj]);
        }
    }
}

/// A monster moved into a room stands there, and nothing else about it changes; every monster
/// keeps its id in its place, so ids stay unique.
pub proof fn law_move_then_in_room(s: Seq<Monster>, id: MonsterId, room: RoomId)
    requires
        has_monster(s, id),
    ensures
        lookup(moved_monster(s, id, room), id) == Some(Monster { current_room: Some(room), ..lookup(s, id)->0 }),
        moved_monster(s, id, room).len() == s.len(),
        forall|i: int| 0 <= i < s.len() ==> (#[trigger] moved_monster(s, id, room)[i]).id == s[i].id,
        ids_unique(s) ==> ids_unique(moved_monster(s, id, room)),
{
    let t = moved_monster(s, id, room);
    lemma_first_exists(s, id);
    assert(t.len() == s.len());
    if ids_unique(s) {
        assert forall|i: int, j: int| 0 <= i < t.len() && 0 <= j < t.len() && i != j implies (#[trigger] t[i]).id != (#[trigger] t[j]).id by {
            assert(t[i].id == s[i].id);
            assert(t[j].id == s[j].id);
        }
    }
    let p = position_of(s, id);
    assert(t[p].id == id);
    lemma_first_exists(t, id);
    let q = position_of(t, id);
    if q < p {
        assert(t[q] == s[q]);
    } else if q > p {
        assert(t[p].id == id);
    }
}

/// When no two monsters share an id, reacting to an arrival keeps them unique, and the monster
/// set to ambush, whose name the notice gives, is the first monster found in the room.
pub proof fn law_arrival_names_found_monster(s: ArrivalView, to: RoomId)
    requires
        ids_unique(s.1),
    ensures
        ids_unique(on_arrival(s, to).1),
        in_room(on_arrival(s, to).1, to).len() > 0 ==> {
            let here = in_room(on_arrival(s, to).1, to);
            &&& on_arrival(s, to).2 == Some(here[0].id)
            &&& lookup(on_arrival(s, to).1, here[0].id) == Some(here[0])
        },
{
    let r = on_arrival(s, to);
    match s.0.get(to.0) {
        Some(RoomEventKind::SpawnMonster(mid)) => if has_monster(s.1, mid) {
            law_move_then_in_room(s.1, mid, to);
        },
        None => {},
    }
    let here = in_room(r.1, to);
    if here.len() > 0 {
        assert(here.contains(here[0]));
        r.1.lemma_filter_contains_rev(stands_in(to), here[0]);
        let k = choose|k: int| 0 <= k < r.1.len() && r.1[k] == here[0];
        lemma_unique_lookup(r.1, k);
    }
}

/// A room's event fires at most once: after it is taken, the room has none.
pub proof fn law_room_event_fires_once(events: Map<usize, RoomEventKind>, room: RoomId)
    ensures
        events.remove(room.0).get(room.0) is None,
{
}

/// A dodged blow does no harm: the player's health stays the same.
pub proof fn law_dodge_keeps_health(s: GameState, s2: GameState, id: MonsterId, first: bool, r: (CombatOutcome, Seq<Seq<char>>))
    requires
        s.attack_effect(&s2, id, first, true, r),
    ensures
        s2.player.health == s.player.health,
{
}

/// A monster whose health falls to zero or below in an attack is gone afterwards, and the
/// attack is reported as won.
pub proof fn law_fallen_monster_removed(s: GameState, s2: GameState, id: MonsterId, first: bool, dodged: bool,
    r: (CombatOutcome, Seq<Seq<char>>))
    requires
        ids_unique(s.monsters@),
        has_monster(s.monsters@, id),
        s.attack_effect(&s2, id, first, dodged, r),
        monster_after_round(lookup(s.monsters@, id)->0.health, s.player.strength, first) <= 0,
    ensures
        lookup(s2.monsters@, id) is None,
        r.0 == CombatOutcome::PlayerWon,
{
    let m0 = s.monsters@;
    lemma_first_exists(m0, id);
    let i = position_of(m0, id);
    let m = m0[i];
    let wounded = Monster { health: monster_after_round(m.health, s.player.strength, first), ..m };
    let updated = m0.update(i, wounded);
    assert forall|a: int, b: int| 0 <= a < updated.len() && 0 <= b < updated.len() && a != b implies
        (#[trigger] updated[a]).id != (#[trigger] updated[b]).id by {
        assert(m0[a].id != m0[b].id);
    }
    law_remove_then_absent(updated, id, id);
}

/// Without a fight in progress, attacking or fleeing is refused and changes nothing.
pub proof fn law_no_fight_without_monster(s: GameState, action: PlayerAction, dodged: bool, drops: bool,
    s2: GameState, c2: Option<CombatInfo>, r: UpdateView)
    requires
        action == PlayerAction::Attack || action == PlayerAction::Flee,
        engine_step(s, None, action, dodged, drops, s2, c2, r),
    ensures
        r == Err::<(Seq<Seq<char>>, Option<MonsterId>), GameError>(GameError::NoMonsterToFight),
        s2 == s,
        c2 is None,
{
}

/// After a successful search, picking up succeeds: the found item goes to the player.
pub proof fn law_search_then_pick_up(s0: GameState, c0: Option<CombatInfo>, s1: GameState, c1: Option<CombatInfo>, r1: UpdateView,
    s2: GameState, c2: Option<CombatInfo>, r2: UpdateView)
    requires
        !owned_by(s0.registry.ownership@, Owner::Room(s0.player.current_room)).is_empty(),
        engine_step(s0, c0, PlayerAction::Search, false, false, s1, c1, r1),
        engine_step(s1, c1, PlayerAction::PickUp, false, false, s2, c2, r2),
    ensures
        r2 == Ok::<(Seq<Seq<char>>, Option<MonsterId>), GameError>((seq!["You picked it up."@], None)),
        s1.player.found_item matches Some(i) && s2.registry.ownership@.get(i.0) == Some(Owner::Player),
        c2 == c0,
{
    let here = owned_by(s0.registry.ownership@, Owner::Room(s0.player.current_room));
    let i = choose|i: ItemId| #[trigger] here.contains(i)
        && s1.player == (Player { found_item: Some(i), ..s0.player })
        && crate::engine::only_player_changed(s0, s1)
        && r1 == Ok::<(Seq<Seq<char>>, Option<MonsterId>), GameError>(
            (seq!["You found: "@ + crate::game_state::item_label(s0.registry.items@, i)], None));
    assert(s1.registry.ownership@.get(i.0) == Some(Owner::Room(s1.player.current_room)));
}

/// Tab then Shift-Tab gives back the selected item.
pub proof fn law_next_then_previous(i: usize, count: usize)
    requires
        i < count,
    ensures
        ((((i + 1) % (count as int)) + count - 1) % (count as int)) == i,
{
    let c = count as int;
    if i + 1 < count {
        vstd::arithmetic::div_mod::lemma_small_mod((i + 1) as nat, count as nat);
        assert((i + 1) + c - 1 == c * 1 + i);
        vstd::arithmetic::div_mod::lemma_mod_multiples_vanish(1, i as int, c);
        vstd::arithmetic::div_mod::lemma_small_mod(i as nat, count as nat);
    } else {
        vstd::arithmetic::div_mod::lemma_mod_self_0(c);
        vstd::arithmetic::div_mod::lemma_small_mod((count - 1) as nat, count as nat);
    }
}

/// The exits listed for a room are exactly its exits: a direction is listed if and only if the
/// room has an exit that way, and none is listed twice.
pub proof fn law_listed_exits_are_the_exits(m: ExitMap, d: Direction)
    ensures
        m.present().contains(d) <==> m.at(d) is Some,
        m.present().no_duplicates(),
{
    let n: Seq<Direction> = if m.north is Some { seq![Direction::North] } else { Seq::empty() };
    let so: Seq<Direction> = if m.south is Some { seq![Direction::South] } else { Seq::empty() };
    let e: Seq<Direction> = if m.east is Some { seq![Direction::East] } else { Seq::empty() };
    let w: Seq<Direction> = if m.west is Some { seq![Direction::West] } else { Seq::empty() };
    let p = m.present();
    assert(p == n + so + e + w);
    assert forall|x: Direction| #[trigger] p.contains(x) <==> m.at(x) is Some by {
        if m.at(x) is Some {
            let k: int = (match x {
                Direction::North => 0int,
                Direction::South => n.len() as int,
                Direction::East => (n.len() + so.len()) as int,
                Direction::West => (n.len() + so.len() + e.len()) as int,
            });
            assert(p[k] == x);
        }
        if p.contains(x) {
            let k = choose|k: int| 0 <= k < p.len() && p[k] == x;
            if k < n.len() {
                assert(p[k] == n[k]);
            } else if k < n.len() + so.len() {
                assert(p[k] == so[k - n.len()]);
            } else if k < n.len() + so.len() + e.len() {
                assert(p[k] == e[k - n.len() - so.len()]);
            } else {
                assert(p[k] == w[k - n.len() - so.len() - e.len()]);
            }
        }
    }
    assert forall|i: int, j: int| 0 <= i < j < p.len() implies p[i] != p[j] by {
        let a = n.len() as int;
        let b = (n.len() + so.len()) as int;
        let c = (n.len() + so.len() + e.len()) as int;
        if i < a { assert(p[i] == Direction::North); }
        else if i < b { assert(p[i] == Direction::South); }
        else if i < c { assert(p[i] == Direction::East); }
        else { assert(p[i] == Direction::West); }
        if j < a { assert(p[j] == Direction::North); }
        else if j < b { assert(p[j] == Direction::South); }
        else if j < c { assert(p[j] == Direction::East); }
        else { assert(p[j] == Direction::West); }
    }
}

/// Where an arrow key points on the screen: right and down are positive.
pub open spec fn arrow_offset(k: Key) -> Option<(i32, i32)> {
    match k {
        Key::Up => Some((0i32, -1i32)),
        Key::Down => Some((0i32, 1i32)),
        Key::Left => Some((-1i32, 0i32)),
        Key::Right => Some((1i32, 0i32)),
        _ => None,
    }
}

/// Each arrow key moves the player one room the way it points on the map.
pub proof fn law_arrow_keys_move_their_way(k: Key)
    ensures
        arrow_offset(k) matches Some(o) ==> (explore_command_spec(k) matches ExploreCommand::Act(PlayerAction::Move(d))
            && delta_spec(d) == o),
{
}

/// Different keys ask for different things: no two keys share a command, except that many
/// keys do nothing.
pub proof fn law_keys_have_distinct_commands(k1: Key, k2: Key)
    requires
        k1 != k2,
        explore_command_spec(k1) != ExploreCommand::Ignore,
    ensures
        explore_command_spec(k1) != explore_command_spec(k2),
{
}

/// Engaging a monster that stands in the player's room starts a fight with it in which the
/// monster strikes first, as in an ambush; nothing else changes.
pub proof fn law_engage_monster_strikes_first(s: GameState, c: Option<CombatInfo>, dodged: bool, drops: bool,
    s2: GameState, c2: Option<CombatInfo>, r: UpdateView)
    requires
        engine_step(s, c, PlayerAction::EngageMonster, dodged, drops, s2, c2, r),
        in_room(s.monsters@, s.player.current_room).len() > 0,
    ensures
        c2 matches Some(ci) && ci.monster_attacks_first
            && ci.monster_id == in_room(s.monsters@, s.player.current_room)[0].id,
        s2 == s,
        r is Ok,
{
}

/// After engaging a monster, the first round of the fight wounds it by the player's strength,
/// or it falls and is gone: a fight that is started can be won.
pub proof fn law_engaged_monster_is_struck(s: GameState, c: Option<CombatInfo>, s1: GameState, c1: Option<CombatInfo>,
    r1: UpdateView, dodged: bool, drops: bool, s2: GameState, c2: Option<CombatInfo>, r2: UpdateView)
    requires
        ids_unique(s.monsters@),
        in_room(s.monsters@, s.player.current_room).len() > 0,
        engine_step(s, c, PlayerAction::EngageMonster, false, false, s1, c1, r1),
        engine_step(s1, c1, PlayerAction::Attack, dodged, drops, s2, c2, r2),
        i32::MIN <= lookup(s.monsters@, in_room(s.monsters@, s.player.current_room)[0].id)->0.health
            - s.player.strength <= i32::MAX,
    ensures
        ({
            let id = in_room(s.monsters@, s.player.current_room)[0].id;
            ||| lookup(s2.monsters@, id) is None
            ||| lookup(s2.monsters@, id) matches Some(m)
                && m.health == lookup(s.monsters@, id)->0.health - s.player.strength
        }),
{
    let here = in_room(s.monsters@, s.player.current_room);
    let id = here[0].id;
    crate::game_state::lemma_in_room_listed(s.monsters@, s.player.current_room);
    let ms = s.monsters@;
    lemma_first_exists(ms, id);
    let i = position_of(ms, id);
    let m = ms[i];
    let wounded = Monster { health: monster_after_round(m.health, s.player.strength, true), ..m };
    let updated = ms.update(i, wounded);
    assert(s1 == s);
    assert(c1 == Some(CombatInfo { monster_id: id, monster_attacks_first: true }));
    let (outcome, log) = choose|outcome: CombatOutcome, log: Seq<Seq<char>>|
        #[trigger] s1.attack_effect(&s2, id, true, dodged, (outcome, log));
    assert(s1.attack_effect(&s2, id, true, dodged, (outcome, log)));
    assert(s2.monsters@ == monsters_after_attack(ms, id, s.player.strength, true));
    assert(lookup(ms, id) == Some(m));
    assert forall|a: int, b: int| 0 <= a < updated.len() && 0 <= b < updated.len() && a != b implies
        (#[trigger] updated[a]).id != (#[trigger] updated[b]).id by {
        assert(ms[a].id != ms[b].id);
    }
    if wounded.health <= 0 {
        law_remove_then_absent(updated, id, id);
    } else {
        lemma_unique_lookup(updated, i);
        assert(updated[i] == wounded);
        assert(lookup(ms, id) == Some(m));
    }
}

/// At the end of a turn, a monster that stands in a room, has a positive speed (whatever its
/// size) and can reach the player's room from another room moves one room along a shortest
/// route toward the player; nothing else about it changes.
pub proof fn law_chasing_monster_steps_toward_player(rooms: Map<usize, Room>, to: RoomId, before: Monster, after: Monster)
    requires
        chases(rooms, to, before, after),
        before.current_room matches Some(c) && c != to && reachable(rooms, c.0, to.0),
        before.speed > 0,
    ensures
        after.current_room matches Some(n) && edge(rooms, (before.current_room->0).0, n.0)
            && is_shortest_step(rooms, (before.current_room->0).0, to.0, n.0),
        after == (Monster { current_room: after.current_room, ..before }),
{
    let c = before.current_room->0;
    crate::navigation::lemma_shortest_step_exists(rooms, c.0, to.0);
}

/// At the end of a turn every monster with a positive speed that stands in a room from which the
/// player's room can be reached moves one room along a shortest route toward the player; a
/// monster already with the player, off the board, or without speed stays where it is.
pub proof fn law_end_turn_brings_monsters_closer(s: GameState, s2: GameState, i: int)
    requires
        s.end_turn_effect(&s2),
        0 <= i < s.monsters@.len(),
    ensures
        i < s2.monsters@.len(),
        s2.monsters@[i] == (Monster { current_room: s2.monsters@[i].current_room, ..s.monsters@[i] }),
        (s.monsters@[i].current_room matches Some(c) && c != s.player.current_room
            && reachable(s.house.rooms@, c.0, s.player.current_room.0) && s.monsters@[i].speed > 0)
            ==> (s2.monsters@[i].current_room matches Some(n)
                && is_shortest_step(s.house.rooms@, (s.monsters@[i].current_room->0).0, s.player.current_room.0, n.0)),
        (s.monsters@[i].current_room is None || s.monsters@[i].current_room == Some(s.player.current_room)
            || s.monsters@[i].speed <= 0) ==> s2.monsters@[i] == s.monsters@[i],
{
    let rooms = s.house.rooms@;
    let to = s.player.current_room;
    assert(chases(rooms, to, s.monsters@[i], s2.monsters@[i]));
    if s.monsters@[i].current_room is Some {
        let c = s.monsters@[i].current_room->0;
        if c != to && reachable(rooms, c.0, to.0) && s.monsters@[i].speed > 0 {
            law_chasing_monster_steps_toward_player(rooms, to, s.monsters@[i], s2.monsters@[i]);
        }
    }
}

} // verus!
