use vstd::prelude::*;
use crate::combat::{
    after_blow, flee_drops_item, flee_log, monster_after_round, resolve_flee_with, resolve_round_with,
    round_log, CombatOutcome,
};
use crate::event::{EventQueue, GameEvent};
use crate::house::{Direction, House, HouseError, Room, RoomId};
use crate::item::{owned_by, Item, ItemError, ItemId, ItemRegistry, Owner};
use crate::monster::{has_monster, ids_unique, in_room, lookup, moved_monster, position_of, without_monster, Monster, MonsterId, MonsterRegistry};
use crate::navigation::first_shortest_step;
use crate::player::{destination, MoveError, Player};
use crate::room_event::{RoomEventKind, RoomEventRegistry};
use crate::text::{join3, texts};
use vstd::string::StringExecFns;

verus! {

broadcast use vstd::std_specs::hash::group_hash_axioms;

/// Everything the game knows about the world at one moment.
pub struct GameState {
    pub house: House,
    pub player: Player,
    pub registry: ItemRegistry,
    pub monsters: MonsterRegistry,
    pub events: EventQueue,
    pub room_events: RoomEventRegistry,
    pub pending_ambush: Option<MonsterId>,
}

/// The name shown for an item: its own, or "something" when it is unknown.
pub open spec fn item_label(items: Map<usize, Item>, item: ItemId) -> Seq<char> {
    if items.contains_key(item.0) { items[item.0].name@ } else { "something"@ }
}

pub open spec fn drop_line(name: Seq<char>) -> Seq<char> {
    "You drop your "@ + name + " in the panic!"@
}

pub open spec fn notice_line(name: Seq<char>) -> Seq<char> {
    "a "@ + name + " notices you"@
}

pub open spec fn lurch_line() -> Seq<char> {
    "Something lurches out of the shadows!"@
}

/// The part of the game that reacting to an arrival reads and changes: pending room events,
/// the monsters, the monster waiting to ambush, and the notices so far.
pub type ArrivalView = (Map<usize, RoomEventKind>, Seq<Monster>, Option<MonsterId>, Seq<Seq<char>>);

/// Reacting to the player's arrival in `to`: the room's event fires once (a monster is moved
/// in), and the first monster in the room, if any, is set to ambush.
pub open spec fn on_arrival(s: ArrivalView, to: RoomId) -> ArrivalView {
    let ev = s.0.remove(to.0);
    let spawned = s.0.contains_key(to.0);
    let mons = match s.0.get(to.0) {
        Some(RoomEventKind::SpawnMonster(mid)) => moved_monster(s.1, mid, to),
        None => s.1,
    };
    let n1 = if spawned { s.3.push(lurch_line()) } else { s.3 };
    let here = in_room(mons, to);
    if here.len() > 0 {
        let mid = here[0].id;
        let name = match lookup(mons, mid) {
            Some(m) => m.name@,
            None => Seq::<char>::empty(),
        };
        let n2 = if spawned { n1 } else { n1.push(notice_line(name)) };
        (ev, mons, Some(mid), n2)
    } else {
        (ev, mons, s.2, n1)
    }
}

/// Reacting to each event in turn.
pub open spec fn process_all(evs: Seq<GameEvent>, s: ArrivalView) -> ArrivalView
    decreases evs.len(),
{
    if evs.len() == 0 {
        s
    } else {
        let next = match evs[0] {
            GameEvent::PlayerMoved { from, to } => on_arrival(s, to),
        };
        process_all(evs.drop_first(), next)
    }
}

/// `after` is `before` at the end of a turn in which it chases room `to`: when it stands in a
/// room and has a positive speed, it steps to the next room that `first_shortest_step` gives
/// (the first step of a shortest route through open exits), if there is one; otherwise it stays.
pub open spec fn chases(rooms: Map<usize, Room>, to: RoomId, before: Monster, after: Monster) -> bool {
    match before.current_room {
        Some(c) => if before.speed > 0 {
            match first_shortest_step(rooms, c.0, to.0) {
                Some(n) => after == (Monster { current_room: Some(RoomId(n)), ..before }),
                None => after == before,
            }
        } else {
            after == before
        },
        None => after == before,
    }
}

/// The monsters after the end of a turn: each chases the player on its own.
pub open spec fn all_chase(rooms: Map<usize, Room>, to: RoomId, before: Seq<Monster>, after: Seq<Monster>) -> bool {
    &&& after.len() == before.len()
    &&& forall|i: int| 0 <= i < before.len() ==> chases(rooms, to, #[trigger] before[i], after[i])
}

/// The effect of an attack round on the monster list: the monster is wounded, and removed
/// when its health drops to zero or below.
pub open spec fn monsters_after_attack(s: Seq<Monster>, id: MonsterId, player_strength: i32, monster_attacks_first: bool) -> Seq<Monster> {
    let i = position_of(s, id);
    let m = s[i];
    let wounded = Monster { health: monster_after_round(m.health, player_strength, monster_attacks_first), ..m };
    let updated = s.update(i, wounded);
    if wounded.health <= 0 { without_monster(updated, id) } else { updated }
}

/// Half of `x`, rounded toward zero.
pub open spec fn half(x: i32) -> i32 {
    if x >= 0 { (x as int / 2) as i32 } else { (-((-(x as int)) / 2)) as i32 }
}

/// A monster that stands in a room is one of the listed monsters.
pub proof fn lemma_in_room_listed(s: Seq<Monster>, room: RoomId)
    requires
        in_room(s, room).len() > 0,
    ensures
        has_monster(s, in_room(s, room)[0].id),
{
    let f = in_room(s, room);
    assert(f.contains(f[0]));
    s.lemma_filter_contains_rev(crate::monster::stands_in(room), f[0]);
    let j = choose|j: int| 0 <= j < s.len() && s[j] == f[0];
    assert(s[j].id == f[0].id);
}

/// Moving a monster keeps every id listed.
pub proof fn lemma_moved_keeps_ids(s: Seq<Monster>, id: MonsterId, room: RoomId, other: MonsterId)
    requires
        has_monster(s, other),
    ensures
        has_monster(moved_monster(s, id, room), other),
{
    let t = moved_monster(s, id, room);
    let j = choose|j: int| 0 <= j < s.len() && (#[trigger] s[j]).id == other;
    if has_monster(s, id) {
        crate::monster::lemma_first_exists(s, id);
        assert(t[j].id == other);
    } else {
        assert(t[j].id == other);
    }
}

/// Reacting to events keeps every monster listed, adds notices only, and changes the pending
/// ambush only together with a new notice, to a listed monster.
pub proof fn lemma_process_all_facts(evs: Seq<GameEvent>, s: ArrivalView)
    ensures
        ({
            let r = process_all(evs, s);
            &&& r.3.len() >= s.3.len()
            &&& (r.3.len() == s.3.len() ==> r.2 == s.2)
            &&& (forall|id: MonsterId| has_monster(s.1, id) ==> #[trigger] has_monster(r.1, id))
            &&& (r.2 != s.2 ==> (r.2 matches Some(m) && has_monster(r.1, m)))
            &&& (ids_unique(s.1) ==> ids_unique(r.1))
        }),
    decreases evs.len(),
{
    if evs.len() > 0 {
        let to = match evs[0] {
            GameEvent::PlayerMoved { from, to } => to,
        };
        let next = on_arrival(s, to);
        let mons = match s.0.get(to.0) {
            Some(RoomEventKind::SpawnMonster(mid)) => moved_monster(s.1, mid, to),
            None => s.1,
        };
        assert forall|id: MonsterId| has_monster(s.1, id) implies #[trigger] has_monster(next.1, id) by {
            match s.0.get(to.0) {
                Some(RoomEventKind::SpawnMonster(mid)) => lemma_moved_keeps_ids(s.1, mid, to, id),
                None => {},
            }
        }
        if in_room(mons, to).len() > 0 {
            lemma_in_room_listed(mons, to);
        }
        match s.0.get(to.0) {
            Some(RoomEventKind::SpawnMonster(mid)) => if has_monster(s.1, mid) {
                crate::laws::law_move_then_in_room(s.1, mid, to);
            },
            None => {},
        }
        lemma_process_all_facts(evs.drop_first(), next);
    }
}

/// An attack round keeps the monsters' ids unique.
pub proof fn lemma_attack_keeps_ids_unique(s: Seq<Monster>, id: MonsterId, player_strength: i32, monster_attacks_first: bool)
    requires
        ids_unique(s),
        has_monster(s, id),
    ensures
        ids_unique(monsters_after_attack(s, id, player_strength, monster_attacks_first)),
{
    crate::monster::lemma_first_exists(s, id);
    let i = position_of(s, id);
    let m = s[i];
    let wounded = Monster { health: monster_after_round(m.health, player_strength, monster_attacks_first), ..m };
    let updated = s.update(i, wounded);
    assert forall|a: int, b: int| 0 <= a < updated.len() && 0 <= b < updated.len() && a != b implies
        (#[trigger] updated[a]).id != (#[trigger] updated[b]).id by {
        assert(s[a].id != s[b].id);
    }
    crate::laws::law_remove_then_absent(updated, id, id);
}

/// After chasing, every monster keeps its id.
pub proof fn lemma_chase_keeps_ids(rooms: Map<usize, Room>, to: RoomId, before: Seq<Monster>, after: Seq<Monster>, id: MonsterId)
    requires
        all_chase(rooms, to, before, after),
        has_monster(before, id),
    ensures
        has_monster(after, id),
{
    let j = choose|j: int| 0 <= j < before.len() && (#[trigger] before[j]).id == id;
    assert(chases(rooms, to, before[j], after[j]));
    assert(after[j].id == id);
}

impl GameState {
    /// The combat preconditions of an attack on `id`: it exists and no health leaves the i32 range.
    pub open spec fn can_attack(&self, id: MonsterId, monster_attacks_first: bool) -> bool {
        &&& has_monster(self.monsters@, id)
        &&& i32::MIN <= self.player.health - lookup(self.monsters@, id)->0.strength <= i32::MAX
        &&& monster_attacks_first ==> i32::MIN <= lookup(self.monsters@, id)->0.health - self.player.strength <= i32::MAX
    }

    /// The effect of one attack round on `id`, with the dodge decided, from `self` to `after`.
    pub open spec fn attack_effect(&self, after: &GameState, id: MonsterId, monster_attacks_first: bool, dodged: bool,
        r: (CombatOutcome, Seq<Seq<char>>)) -> bool {
        let m = lookup(self.monsters@, id)->0;
        let health_after = monster_after_round(m.health, self.player.strength, monster_attacks_first);
        &&& after.player == (Player { health: after_blow(self.player.health, m.strength, dodged), ..self.player })
        &&& after.monsters@ == monsters_after_attack(self.monsters@, id, self.player.strength, monster_attacks_first)
        &&& r.0 == (if health_after <= 0 { CombatOutcome::PlayerWon } else { CombatOutcome::Ongoing })
        &&& r.1 == round_log(m.name@, self.player.strength, m.strength, monster_attacks_first, dodged, health_after)
        &&& after.house == self.house
        &&& after.registry == self.registry
        &&& after.events@ == self.events@
        &&& after.room_events@ == self.room_events@
        &&& after.pending_ambush == self.pending_ambush
    }

    /// The effect of fleeing from `id`, with the dodge and the dropping decided.
    pub open spec fn flee_effect(&self, after: &GameState, id: MonsterId, dodged: bool, drops: bool, log: Seq<Seq<char>>) -> bool {
        let m = lookup(self.monsters@, id)->0;
        let carried = owned_by(self.registry.ownership@, Owner::Player);
        &&& after.player == (Player { health: after_blow(self.player.health, m.strength, dodged), ..self.player })
        &&& after.registry.items@ == self.registry.items@
        &&& if drops && !carried.is_empty() {
            exists|item: ItemId| #[trigger] carried.contains(item)
                && after.registry.ownership@ == self.registry.ownership@.insert(item.0, Owner::Room(self.player.current_room))
                && log == flee_log(m.name@, m.strength, dodged).push(drop_line(item_label(self.registry.items@, item)))
        } else {
            &&& after.registry.ownership@ == self.registry.ownership@
            &&& log == flee_log(m.name@, m.strength, dodged)
        }
        &&& after.house == self.house
        &&& after.monsters@ == self.monsters@
        &&& after.events@ == self.events@
        &&& after.room_events@ == self.room_events@
        &&& after.pending_ambush == self.pending_ambush
    }

    /// The effect of the end of a turn: monsters chase the player, and the player's moves refill.
    pub open spec fn end_turn_effect(&self, after: &GameState) -> bool {
        &&& all_chase(self.house.rooms@, self.player.current_room, self.monsters@, after.monsters@)
        &&& after.player == (Player { moves_remaining: self.player.speed, ..self.player })
        &&& after.house == self.house
        &&& after.registry == self.registry
        &&& after.events@ == self.events@
        &&& after.room_events@ == self.room_events@
        &&& after.pending_ambush == self.pending_ambush
    }

    /// The effect of processing all waiting events.
    pub open spec fn process_effect(&self, after: &GameState, notices: Seq<Seq<char>>) -> bool {
        let fin = process_all(self.events@, (self.room_events@, self.monsters@, self.pending_ambush, Seq::empty()));
        &&& after.room_events@ == fin.0
        &&& after.monsters@ == fin.1
        &&& after.pending_ambush == fin.2
        &&& notices == fin.3
        &&& after.events@ == Seq::<GameEvent>::empty()
        &&& after.house == self.house
        &&& after.player == self.player
        &&& after.registry == self.registry
    }

    /// Only the item registry's ownership differs between `self` and `after`, and it differs by `o`.
    pub open spec fn only_ownership_changed(&self, after: &GameState, o: Map<usize, Owner>) -> bool {
        &&& after.registry.ownership@ == o
        &&& after.registry.items@ == self.registry.items@
        &&& after.house == self.house
        &&& after.player == self.player
        &&& after.monsters@ == self.monsters@
        &&& after.events@ == self.events@
        &&& after.room_events@ == self.room_events@
        &&& after.pending_ambush == self.pending_ambush
    }

    /// The preconditions of a move: a player with moves left stands in an existing room, and
    /// the move counter can be decremented.
    pub open spec fn can_move(&self) -> bool {
        &&& self.player.moves_remaining != 0 ==> self.house.rooms@.contains_key(self.player.current_room.0)
        &&& self.player.moves_remaining > i32::MIN
    }

    /// The effect of a move in direction `dir`, from `self` to `after`.
    pub open spec fn move_effect(&self, after: &GameState, dir: Direction, r: Result<(), MoveError>) -> bool {
        if self.player.moves_remaining == 0 {
            r == Err::<(), MoveError>(MoveError::NoMovesRemaining) && *after == *self
        } else {
            match destination(self.house.rooms@[self.player.current_room.0], dir) {
                None => r == Err::<(), MoveError>(MoveError::InvalidMovement(dir)) && *after == *self,
                Some(t) => {
                    let left = (self.player.moves_remaining - 1) as i32;
                    &&& r == Ok::<(), MoveError>(())
                    &&& after.events@ == self.events@.push(GameEvent::PlayerMoved { from: self.player.current_room, to: t })
                    &&& after.house == self.house
                    &&& after.registry == self.registry
                    &&& after.room_events@ == self.room_events@
                    &&& after.pending_ambush == self.pending_ambush
                    &&& if left == 0 {
                        &&& after.player == (Player { current_room: t, moves_remaining: self.player.speed, ..self.player })
                        &&& all_chase(self.house.rooms@, t, self.monsters@, after.monsters@)
                    } else {
                        &&& after.player == (Player { current_room: t, moves_remaining: left, ..self.player })
                        &&& after.monsters@ == self.monsters@
                    }
                },
            }
        }
    }

    /// The game state built from its parts, with no ambush pending.
    pub fn new(house: House, player: Player, registry: ItemRegistry, monsters: MonsterRegistry, events: EventQueue,
        room_events: RoomEventRegistry, pending_ambush: Option<MonsterId>) -> (g: GameState)
        ensures
            g == (GameState { house, player, registry, monsters, events, room_events, pending_ambush: None }),
    {
        GameState { house, player, registry, monsters, events, room_events, pending_ambush: None }
    }

    /// One attack round against `monster_id`, with the dodge decided; a monster that falls is removed.
    pub fn attack_with(&mut self, monster_id: MonsterId, monster_attacks_first: bool, dodged: bool)
        -> (r: (CombatOutcome, Vec<String>))
        requires
            old(self).can_attack(monster_id, monster_attacks_first),
        ensures
            old(self).attack_effect(final(self), monster_id, monster_attacks_first, dodged, (r.0, texts(r.1@))),
    {
        let monster = match self.monsters.monster_mut(monster_id) {
            Some(m) => m,
            None => {
                return (CombatOutcome::Ongoing, Vec::new());
            },
        };
        let (outcome, log) = resolve_round_with(&mut self.player, monster, monster_attacks_first, dodged);
        match outcome {
            CombatOutcome::PlayerWon => {
                self.monsters.remove_monster(monster_id);
            },
            CombatOutcome::PlayerDefeated => {
                self.respawn_player();
            },
            CombatOutcome::Ongoing => {},
            CombatOutcome::PlayerFled => {},
        }
        (outcome, log)
    }

    /// One attack round against `monster_id`: rolls the player's dodge, then plays the round.
    pub fn attack(&mut self, monster_id: MonsterId, monster_attacks_first: bool) -> (r: (CombatOutcome, Vec<String>))
        requires
            old(self).can_attack(monster_id, monster_attacks_first),
        ensures
            exists|dodged: bool| {
                &&& (dodged ==> old(self).player.speed >= 1)
                &&& (old(self).player.speed >= 12 ==> dodged)
                &&& old(self).attack_effect(final(self), monster_id, monster_attacks_first, dodged, (r.0, texts(r.1@)))
            },
    {
        let dodged = crate::combat::dodge_succeeds(self.player.speed);
        self.attack_with(monster_id, monster_attacks_first, dodged)
    }

    /// Flees from `monster_id` with the dodge and the dropping decided: when dropping, the
    /// first item the player carries is left in the current room.
    pub fn flee_with(&mut self, monster_id: MonsterId, dodged: bool, drops: bool) -> (log: Vec<String>)
        requires
            old(self).can_attack(monster_id, false),
        ensures
            old(self).flee_effect(final(self), monster_id, dodged, drops, texts(log@)),
    {
        let monster = match self.monsters.monster(monster_id) {
            Ok(m) => m,
            Err(_) => {
                return Vec::new();
            },
        };
        let mut log = resolve_flee_with(&mut self.player, monster, dodged);
        if drops {
            let carried = self.registry.items_owned_by(Owner::Player);
            if carried.len() > 0 {
                let item_id = carried[0];
                let name = match self.registry.name_of(item_id) {
                    Some(n) => n,
                    None => "something",
                };
                let name = String::from_str(name);
                self.registry.assign(item_id, Owner::Room(self.player.current_room));
                let ghost old_log = log@;
                log.push(join3("You drop your ", name.as_str(), " in the panic!"));
                proof {
                    assert(carried@.to_set().contains(item_id));
                    assert(texts(log@) =~= texts(old_log).push(drop_line(item_label(old(self).registry.items@, item_id))));
                }
            } else {
                proof {
                    assert(carried@.to_set() =~= Set::<ItemId>::empty());
                }
            }
        }
        log
    }

    /// Flees from `monster_id`: rolls the dodge and whether an item is dropped in the panic.
    pub fn flee(&mut self, monster_id: MonsterId) -> (log: Vec<String>)
        requires
            old(self).can_attack(monster_id, false),
        ensures
            exists|dodged: bool, drops: bool| {
                &&& (dodged ==> old(self).player.speed >= 1)
                &&& (old(self).player.speed >= 12 ==> dodged)
                &&& old(self).flee_effect(final(self), monster_id, dodged, drops, texts(log@))
            },
    {
        let dodged = crate::combat::dodge_succeeds(self.player.speed);
        let drops = flee_drops_item();
        self.flee_with(monster_id, dodged, drops)
    }

    /// Reacts to the player's arrival in `to`, adding notices to `notices`.
    fn arrive(&mut self, to: RoomId, notices: &mut Vec<String>)
        ensures
            (final(self).room_events@, final(self).monsters@, final(self).pending_ambush, texts(final(notices)@))
                == on_arrival((old(self).room_events@, old(self).monsters@, old(self).pending_ambush, texts(old(notices)@)), to),
            final(self).house == old(self).house,
            final(self).player == old(self).player,
            final(self).registry == old(self).registry,
            final(self).events@ == old(self).events@,
    {
        let mut spawned_this_turn = false;
        match self.room_events.room_check(to) {
            Some(kind) => match kind {
                RoomEventKind::SpawnMonster(monster_id) => {
                    self.monsters.move_to(monster_id, to);
                    let ghost before = notices@;
                    notices.push(String::from_str("Something lurches out of the shadows!"));
                    proof {
                        assert(texts(notices@) =~= texts(before).push(lurch_line()));
                    }
                    spawned_this_turn = true;
                },
            },
            None => {},
        }
        let monsters_here = self.monsters.monsters_in(to);
        if monsters_here.len() > 0 {
            let monster_id = monsters_here[0].id;
            proof {
                assert(monsters_here@.map_values(|m: &Monster| *m)[0] == *monsters_here@[0]);
            }
            if !spawned_this_turn {
                let name = match self.monsters.monster(monster_id) {
                    Ok(m) => m.name.clone(),
                    Err(_) => String::new(),
                };
                let ghost before = notices@;
                notices.push(join3("a ", name.as_str(), " notices you"));
                proof {
                    assert(texts(notices@) =~= texts(before).push(notice_line(name@)));
                }
            }
            self.pending_ambush = Some(monster_id);
        }
    }

    /// Reacts to every waiting event, oldest first, and returns the notices for the player.
    pub fn process_events(&mut self) -> (notices: Vec<String>)
        ensures
            old(self).process_effect(final(self), texts(notices@)),
    {
        let events = self.events.drain();
        let mut notices: Vec<String> = Vec::new();
        let ghost target = process_all(events@, (old(self).room_events@, old(self).monsters@, old(self).pending_ambush, Seq::empty()));
        let mut i: usize = 0;
        proof {
            assert(events@.subrange(0, events@.len() as int) =~= events@);
            assert(texts(notices@) =~= Seq::<Seq<char>>::empty());
        }
        while i < events.len()
            invariant
                i <= events@.len(),
                events@ == old(self).events@,
                process_all(events@.subrange(i as int, events@.len() as int),
                    (self.room_events@, self.monsters@, self.pending_ambush, texts(notices@))) == target,
                self.events@ == Seq::<GameEvent>::empty(),
                self.house == old(self).house,
                self.player == old(self).player,
                self.registry == old(self).registry,
            decreases events@.len() - i,
        {
            let ghost rest = events@.subrange(i as int, events@.len() as int);
            proof {
                assert(rest.drop_first() =~= events@.subrange(i + 1, events@.len() as int));
                assert(rest[0] == events@[i as int]);
            }
            match events[i] {
                GameEvent::PlayerMoved { from, to } => {
                    self.arrive(to, &mut notices);
                },
            }
            i = i + 1;
        }
        proof {
            assert(events@.subrange(i as int, events@.len() as int) =~= Seq::<GameEvent>::empty());
        }
        notices
    }

    /// Ends the turn: every monster in a room moves toward the player (when it has a positive
    /// speed and a route), and the player's moves refill to their speed.
    pub fn end_turn(&mut self)
        ensures
            old(self).end_turn_effect(final(self)),
    {
        let to = self.player.current_room;
        let ghost rooms = self.house.rooms@;
        let ghost before = self.monsters@;
        let monsters = self.monsters.all_monsters_mut();
        let n = monsters.len();
        let mut i: usize = 0;
        while i < n
            invariant
                n == monsters@.len(),
                n == before.len(),
                i <= n,
                rooms == self.house.rooms@,
                forall|j: int| 0 <= j < i ==> chases(rooms, to, #[trigger] before[j], monsters@[j]),
                forall|j: int| i <= j < n ==> #[trigger] monsters@[j] == before[j],
            decreases n - i,
        {
            match monsters[i].current_room {
                Some(current) => {
                    let speed = monsters[i].speed;
                    let ghost m0 = before[i as int];
                    let mut k: i32 = 0;
                    let mut stuck = false;
                    while k < speed && !stuck
                        invariant
                            n == monsters@.len(),
                            n == before.len(),
                            i < n,
                            rooms == self.house.rooms@,
                            m0 == before[i as int],
                            m0.current_room == Some(current),
                            speed == m0.speed,
                            0 <= k,
                            k <= speed || (k == 0),
                            forall|j: int| 0 <= j < i ==> chases(rooms, to, #[trigger] before[j], monsters@[j]),
                            forall|j: int| i < j < n ==> #[trigger] monsters@[j] == before[j],
                            stuck ==> k == 0 && monsters@[i as int] == m0 && first_shortest_step(rooms, current.0, to.0) is None,
                            !stuck && k == 0 ==> monsters@[i as int] == m0,
                            !stuck && k > 0 ==> (first_shortest_step(rooms, current.0, to.0) matches Some(nb)
                                && monsters@[i as int] == (Monster { current_room: Some(RoomId(nb)), ..m0 })),
                        decreases (speed as int - k as int) + (if stuck { 0int } else { 1int }),
                    {
                        match self.house.next_step_toward(current, to) {
                            Some(next) => {
                                monsters[i].current_room = Some(next);
                                k = k + 1;
                            },
                            None => {
                                stuck = true;
                            },
                        }
                    }
                    proof {
                        assert(chases(rooms, to, before[i as int], monsters@[i as int]));
                    }
                },
                None => {},
            }
            i = i + 1;
        }
        self.player.moves_remaining = self.player.speed;
    }

    /// The room the player stands in.
    pub fn current_room(&self) -> (r: Result<&Room, HouseError>)
        ensures
            match r {
                Ok(room) => self.house.rooms@.contains_key(self.player.current_room.0)
                    && *room == self.house.rooms@[self.player.current_room.0],
                Err(e) => !self.house.rooms@.contains_key(self.player.current_room.0)
                    && e == HouseError::RoomNotFound(self.player.current_room),
            },
    {
        self.house.room(self.player.current_room)
    }

    /// Moves the player one room in direction `dir`, using up a move and recording the move as
    /// an event; when this was the last move, the turn ends.
    pub fn move_player(&mut self, dir: Direction) -> (r: Result<(), MoveError>)
        requires
            old(self).can_move(),
        ensures
            old(self).move_effect(final(self), dir, r),
    {
        if self.player.moves_remaining == 0 {
            return Err(MoveError::NoMovesRemaining);
        }
        let from = self.player.current_room;
        match self.player.move_player(&self.house, dir) {
            Ok(()) => {},
            Err(e) => {
                return Err(e);
            },
        }
        self.player.moves_remaining = self.player.moves_remaining - 1;
        let to = self.player.current_room;
        self.events.push(GameEvent::PlayerMoved { from, to });
        if self.player.moves_remaining == 0 {
            self.end_turn();
        }
        Ok(())
    }

    /// Picks up the item, when it lies in the player's room.
    pub fn pick_up_item(&mut self, item_id: ItemId) -> (r: Result<(), ItemError>)
        ensures
            if old(self).registry.ownership@.get(item_id.0) == Some(Owner::Room(old(self).player.current_room)) {
                r == Ok::<(), ItemError>(())
                    && old(self).only_ownership_changed(final(self), old(self).registry.ownership@.insert(item_id.0, Owner::Player))
            } else {
                r == Err::<(), ItemError>(ItemError::ItemNotFound(item_id)) && *final(self) == *old(self)
            },
    {
        let here = self.player.current_room;
        let in_room = match self.registry.owner_of(item_id) {
            Some(Owner::Room(r)) => r.0 == here.0,
            _ => false,
        };
        if !in_room {
            return Err(ItemError::ItemNotFound(item_id));
        }
        self.registry.assign(item_id, Owner::Player);
        Ok(())
    }

    /// Drops the item into the player's room, when the player carries it.
    pub fn drop_item(&mut self, item_id: ItemId) -> (r: Result<(), ItemError>)
        ensures
            if old(self).registry.ownership@.get(item_id.0) == Some(Owner::Player) {
                r == Ok::<(), ItemError>(())
                    && old(self).only_ownership_changed(final(self),
                        old(self).registry.ownership@.insert(item_id.0, Owner::Room(old(self).player.current_room)))
            } else {
                r == Err::<(), ItemError>(ItemError::ItemNotFound(item_id)) && *final(self) == *old(self)
            },
    {
        let carried = match self.registry.owner_of(item_id) {
            Some(Owner::Player) => true,
            _ => false,
        };
        if !carried {
            return Err(ItemError::ItemNotFound(item_id));
        }
        self.registry.assign(item_id, Owner::Room(self.player.current_room));
        Ok(())
    }

    /// The player goes back to the entrance with half their maximum health.
    pub fn respawn_player(&mut self)
        ensures
            final(self).player == (Player {
                current_room: RoomId(0),
                health: half(old(self).player.max_health),
                ..old(self).player
            }),
            final(self).house == old(self).house,
            final(self).registry == old(self).registry,
            final(self).monsters@ == old(self).monsters@,
            final(self).events@ == old(self).events@,
            final(self).room_events@ == old(self).room_events@,
            final(self).pending_ambush == old(self).pending_ambush,
    {
        self.player.current_room = RoomId(0);
        self.player.health = self.player.max_health / 2;
    }
}

} // verus!
