use vstd::prelude::*;
use crate::house::RoomId;
use crate::text::{join3, nat_text, usize_to_string};

verus! {

/// Identifier of a monster.
#[derive(Debug, Clone, Copy, PartialEq, Eq, Structural, Hash)]
pub struct MonsterId(pub usize);

/// The stats a monster is spawned with.
pub struct MonsterTemplate {
    pub name: String,
    pub health: i32,
    pub strength: i32,
    pub speed: i32,
}

/// A monster in play, or waiting off the board when it has no room.
#[derive(Debug)]
pub struct Monster {
    pub id: MonsterId,
    pub name: String,
    pub current_room: Option<RoomId>,
    pub strength: i32,
    pub health: i32,
    pub speed: i32,
    pub max_health: i32,
}

impl MonsterTemplate {
    /// A monster with this template's stats, at full health.
    pub fn spawn(&self, id: MonsterId, room: Option<RoomId>) -> (m: Monster)
        ensures
            m.id == id,
            m.name@ == self.name@,
            m.current_room == room,
            m.health == self.health,
            m.strength == self.strength,
            m.speed == self.speed,
            m.max_health == self.health,
    {
        Monster {
            id,
            name: self.name.clone(),
            current_room: room,
            health: self.health,
            strength: self.strength,
            speed: self.speed,
            max_health: self.health,
        }
    }
}

/// A list of monster templates, as read from a configuration file.
pub struct MonsterConfig {
    pub monster: Vec<MonsterTemplate>,
}

/// Failures of monster lookups.
#[derive(Debug, Clone, Copy, PartialEq, Eq, Structural)]
pub enum MonsterError {
    MonsterNotFound(MonsterId),
}

/// Some monster in `s` has the id `id`.
pub open spec fn has_monster(s: Seq<Monster>, id: MonsterId) -> bool {
    exists|i: int| 0 <= i < s.len() && (#[trigger] s[i]).id == id
}

/// `i` is the position of the first monster with id `id` in `s`.
pub open spec fn is_first_with(s: Seq<Monster>, id: MonsterId, i: int) -> bool {
    &&& 0 <= i < s.len()
    &&& s[i].id == id
    &&& forall|j: int| 0 <= j < i ==> (#[trigger] s[j]).id != id
}

/// The position of the first monster with id `id` (meaningful when there is one).
pub open spec fn position_of(s: Seq<Monster>, id: MonsterId) -> int {
    choose|i: int| is_first_with(s, id, i)
}

/// The monster with id `id`, if any.
pub open spec fn lookup(s: Seq<Monster>, id: MonsterId) -> Option<Monster> {
    if has_monster(s, id) {
        Some(s[position_of(s, id)])
    } else {
        None
    }
}

/// No two monsters share an id.
pub open spec fn ids_unique(s: Seq<Monster>) -> bool {
    forall|i: int, j: int| 0 <= i < s.len() && 0 <= j < s.len() && i != j ==> (#[trigger] s[i]).id != (#[trigger] s[j]).id
}

/// The list after adding `m`: it replaces the monster with its id, or is appended.
pub open spec fn with_monster(s: Seq<Monster>, m: Monster) -> Seq<Monster> {
    if has_monster(s, m.id) {
        s.update(position_of(s, m.id), m)
    } else {
        s.push(m)
    }
}

/// The list without the monster with id `id`, in the same order.
pub open spec fn without_monster(s: Seq<Monster>, id: MonsterId) -> Seq<Monster> {
    if has_monster(s, id) {
        s.remove(position_of(s, id))
    } else {
        s
    }
}

/// The list with the monster `id` placed in room `room`.
pub open spec fn moved_monster(s: Seq<Monster>, id: MonsterId, room: RoomId) -> Seq<Monster> {
    if has_monster(s, id) {
        let i = position_of(s, id);
        s.update(i, Monster { current_room: Some(room), ..s[i] })
    } else {
        s
    }
}

/// The monsters standing in room `room`, in list order.
pub open spec fn in_room(s: Seq<Monster>, room: RoomId) -> Seq<Monster> {
    s.filter(stands_in(room))
}

/// The test "this monster stands in `room`".
pub open spec fn stands_in(room: RoomId) -> spec_fn(Monster) -> bool {
    |m: Monster| m.current_room == Some(room)
}

pub proof fn lemma_first_exists(s: Seq<Monster>, id: MonsterId)
    requires
        has_monster(s, id),
    ensures
        is_first_with(s, id, position_of(s, id)),
    decreases s.len(),
{
    let i = choose|i: int| 0 <= i < s.len() && (#[trigger] s[i]).id == id;
    lemma_first_below(s, id, i);
}

pub proof fn lemma_first_below(s: Seq<Monster>, id: MonsterId, k: int)
    requires
        0 <= k < s.len(),
        s[k].id == id,
    ensures
        exists|i: int| is_first_with(s, id, i),
    decreases k,
{
    if exists|j: int| 0 <= j < k && (#[trigger] s[j]).id == id {
        let j = choose|j: int| 0 <= j < k && (#[trigger] s[j]).id == id;
        lemma_first_below(s, id, j);
    } else {
        assert(is_first_with(s, id, k));
    }
}

/// Keeping some monsters of a list whose ids are unique keeps them unique.
pub proof fn lemma_filter_keeps_ids_unique(s: Seq<Monster>, p: spec_fn(Monster) -> bool)
    requires
        ids_unique(s),
    ensures
        ids_unique(s.filter(p)),
    decreases s.len(),
{
    reveal_with_fuel(Seq::<_>::filter, 1);
    if s.len() > 0 {
        let d = s.drop_last();
        assert(ids_unique(d)) by {
            assert forall|i: int, j: int| 0 <= i < d.len() && 0 <= j < d.len() && i != j
                implies (#[trigger] d[i]).id != (#[trigger] d[j]).id by {
                assert(d[i] == s[i] && d[j] == s[j]);
            }
        }
        lemma_filter_keeps_ids_unique(d, p);
        let f = d.filter(p);
        if p(s.last()) {
            let g = f.push(s.last());
            assert(s.filter(p) == g);
            assert forall|i: int| 0 <= i < f.len() implies (#[trigger] f[i]).id != s.last().id by {
                d.lemma_filter_contains_rev(p, f[i]);
                assert(f.contains(f[i]));
                let k = choose|k: int| 0 <= k < d.len() && d[k] == f[i];
                assert(s[k] == d[k]);
                assert(s[s.len() - 1] == s.last());
            }
            assert forall|i: int, j: int| 0 <= i < g.len() && 0 <= j < g.len() && i != j
                implies (#[trigger] g[i]).id != (#[trigger] g[j]).id by {
                if i < f.len() && j < f.len() {
                    assert(g[i] == f[i] && g[j] == f[j]);
                } else if i < f.len() {
                    assert(g[i] == f[i]);
                } else {
                    assert(g[j] == f[j]);
                }
            }
        } else {
            assert(s.filter(p) == f);
        }
    }
}

/// A monster of a list whose ids are unique is the one found by its id.
pub proof fn lemma_unique_lookup(s: Seq<Monster>, k: int)
    requires
        ids_unique(s),
        0 <= k < s.len(),
    ensures
        lookup(s, s[k].id) == Some(s[k]),
{
    lemma_first_below(s, s[k].id, k);
    lemma_first_exists(s, s[k].id);
    let p = position_of(s, s[k].id);
    if p != k {
        assert(s[p].id == s[k].id);
    }
}

/// The monsters of the game, in the order they were added.
pub struct MonsterRegistry {
    monsters: Vec<Monster>,
}

impl View for MonsterRegistry {
    type V = Seq<Monster>;

    closed spec fn view(&self) -> Seq<Monster> {
        self.monsters@
    }
}

impl MonsterRegistry {
    /// Scans for the first monster with the given id.
    fn find(&self, id: MonsterId) -> (r: Option<usize>)
        ensures
            match r {
                Some(i) => is_first_with(self@, id, i as int) && i as int == position_of(self@, id)
                    && has_monster(self@, id),
                None => !has_monster(self@, id),
            },
    {
        let mut i: usize = 0;
        while i < self.monsters.len()
            invariant
                i <= self.monsters@.len(),
                forall|j: int| 0 <= j < i ==> (#[trigger] self.monsters@[j]).id != id,
            decreases self.monsters@.len() - i,
        {
            if self.monsters[i].id == id {
                proof {
                    assert(is_first_with(self@, id, i as int));
                    lemma_first_exists(self@, id);
                    let p = position_of(self@, id);
                    if p < i {
                        assert(self@[p].id == id);
                    } else if p > i {
                        assert(self@[i as int].id == id);
                    }
                }
                return Some(i);
            }
            i = i + 1;
        }
        None
    }

    /// An empty registry.
    pub fn new() -> (r: MonsterRegistry)
        ensures
            r@ == Seq::<Monster>::empty(),
    {
        MonsterRegistry { monsters: Vec::new() }
    }

    /// Adds the monster, replacing any monster with the same id.
    pub fn add_monster_instance(&mut self, monster: Monster)
        ensures
            final(self)@ == with_monster(old(self)@, monster),
            ids_unique(old(self)@) ==> ids_unique(final(self)@),
    {
        proof {
            if ids_unique(old(self)@) {
                crate::laws::law_add_keeps_ids_unique(old(self)@, monster);
            }
        }
        match self.find(monster.id) {
            Some(i) => {
                self.monsters.set(i, monster);
            },
            None => {
                self.monsters.push(monster);
            },
        }
    }

    /// Removes the monster with the given id, if there is one.
    pub fn remove_monster(&mut self, id: MonsterId)
        ensures
            final(self)@ == without_monster(old(self)@, id),
            ids_unique(old(self)@) ==> ids_unique(final(self)@) && !has_monster(final(self)@, id),
    {
        proof {
            if ids_unique(old(self)@) {
                crate::laws::law_remove_then_absent(old(self)@, id, id);
            }
        }
        match self.find(id) {
            Some(i) => {
                self.monsters.remove(i);
            },
            None => {},
        }
    }

    /// The monster with the given id.
    pub fn monster(&self, id: MonsterId) -> (r: Result<&Monster, MonsterError>)
        ensures
            match r {
                Ok(m) => lookup(self@, id) == Some(*m),
                Err(e) => lookup(self@, id) is None && e == MonsterError::MonsterNotFound(id),
            },
    {
        match self.find(id) {
            Some(i) => Ok(&self.monsters[i]),
            None => Err(MonsterError::MonsterNotFound(id)),
        }
    }

    /// The monsters standing in `room`, in the order they were added.
    pub fn monsters_in(&self, room: RoomId) -> (r: Vec<&Monster>)
        ensures
            r@.map_values(|m: &Monster| *m) == in_room(self@, room),
            ids_unique(self@) ==> ids_unique(in_room(self@, room)),
    {
        proof {
            if ids_unique(self@) {
                lemma_filter_keeps_ids_unique(self@, stands_in(room));
            }
        }
        let mut r: Vec<&Monster> = Vec::new();
        let ghost pred = stands_in(room);
        let mut i: usize = 0;
        while i < self.monsters.len()
            invariant
                i <= self.monsters@.len(),
                pred == stands_in(room),
                r@.map_values(|m: &Monster| *m) == self.monsters@.take(i as int).filter(pred),
            decreases self.monsters@.len() - i,
        {
            let ghost old_r = r@;
            proof {
                reveal_with_fuel(Seq::<_>::filter, 1);
                let t = self.monsters@.take(i + 1);
                assert(t.drop_last() =~= self.monsters@.take(i as int));
                assert(t.last() == self.monsters@[i as int]);
                assert(t.filter(pred) == if pred(t.last()) { t.drop_last().filter(pred).push(t.last()) } else { t.drop_last().filter(pred) });
            }
            let here = match self.monsters[i].current_room {
                Some(r) => r.0 == room.0,
                None => false,
            };
            if here {
                r.push(&self.monsters[i]);
                proof {
                    assert(self.monsters@[i as int].current_room == Some(room));
                    assert(pred(self.monsters@[i as int]));
                    assert(r@.map_values(|m: &Monster| *m) =~= old_r.map_values(|m: &Monster| *m).push(self.monsters@[i as int]));
                }
            } else {
                proof {
                    assert(!pred(self.monsters@[i as int]));
                    assert(r@.map_values(|m: &Monster| *m) =~= old_r.map_values(|m: &Monster| *m));
                }
            }
            i = i + 1;
        }
        proof {
            assert(self.monsters@.take(self.monsters@.len() as int) =~= self.monsters@);
        }
        r
    }

    /// Puts the monster with the given id into `room`; nothing happens when there is none.
    pub fn move_to(&mut self, id: MonsterId, room: RoomId)
        ensures
            final(self)@ == moved_monster(old(self)@, id, room),
            ids_unique(old(self)@) ==> ids_unique(final(self)@),
    {
        proof {
            if has_monster(old(self)@, id) {
                crate::laws::law_move_then_in_room(old(self)@, id, room);
            }
        }
        match self.find(id) {
            Some(i) => {
                let m = self.monsters.remove(i);
                let moved = Monster { current_room: Some(room), ..m };
                self.monsters.insert(i, moved);
                proof {
                    assert(self.monsters@ =~= moved_monster(old(self)@, id, room));
                }
            },
            None => {},
        }
    }

    /// Whether no two monsters share an id.
    pub fn has_unique_ids(&self) -> (r: bool)
        ensures
            r == ids_unique(self@),
    {
        let n = self.monsters.len();
        let mut i: usize = 0;
        while i < n
            invariant
                n == self.monsters@.len(),
                i <= n,
                forall|a: int, b: int| 0 <= a < i && 0 <= b < n && a != b
                    ==> (#[trigger] self.monsters@[a]).id != (#[trigger] self.monsters@[b]).id,
            decreases n - i,
        {
            let mut j: usize = i + 1;
            while j < n
                invariant
                    n == self.monsters@.len(),
                    i < n,
                    i + 1 <= j <= n,
                    forall|a: int, b: int| 0 <= a < i && 0 <= b < n && a != b
                        ==> (#[trigger] self.monsters@[a]).id != (#[trigger] self.monsters@[b]).id,
                    forall|b: int| i < b < j ==> (#[trigger] self.monsters@[b]).id != self.monsters@[i as int].id,
                decreases n - j,
            {
                if self.monsters[i].id == self.monsters[j].id {
                    proof {
                        assert(self.monsters@[i as int].id == self.monsters@[j as int].id);
                    }
                    return false;
                }
                j = j + 1;
            }
            proof {
                assert forall|a: int, b: int| 0 <= a < i + 1 && 0 <= b < n && a != b
                    implies (#[trigger] self.monsters@[a]).id != (#[trigger] self.monsters@[b]).id by {
                    if a == i && b < i {
                        assert(self.monsters@[b].id != self.monsters@[a].id);
                    }
                }
            }
            i = i + 1;
        }
        true
    }

    /// Mutable access to the monster with the given id.
    pub fn monster_mut(&mut self, id: MonsterId) -> (r: Option<&mut Monster>)
        ensures
            match r {
                Some(m) => has_monster(old(self)@, id) && *m == old(self)@[position_of(old(self)@, id)]
                    && final(self)@ == old(self)@.update(position_of(old(self)@, id), *final(m)),
                None => !has_monster(old(self)@, id) && final(self)@ == old(self)@,
            },
    {
        match self.find(id) {
            Some(i) => Some(&mut self.monsters[i]),
            None => None,
        }
    }

    /// Mutable access to all monsters at once, in the order they were added.
    pub fn all_monsters_mut(&mut self) -> (r: &mut [Monster])
        ensures
            r@ == old(self)@,
            final(self)@ == final(r)@,
    {
        self.monsters.as_mut_slice()
    }
}

impl MonsterError {
    /// The text of the error.
    pub fn message(&self) -> (r: String)
        ensures
            r@ == match *self {
                MonsterError::MonsterNotFound(id) => "no such monster: MonsterId("@ + nat_text(id.0 as nat) + ")"@,
            },
    {
        match self {
            MonsterError::MonsterNotFound(id) => {
                let n = usize_to_string(id.0);
                join3("no such monster: MonsterId(", n.as_str(), ")")
            },
        }
    }
}

} // verus!
