use vstd::prelude::*;
use std::collections::HashMap;
use crate::exit::{Exit, ExitTarget, Traversability};
use crate::house::{Direction, House, Room, RoomId};

verus! {

broadcast use vstd::std_specs::hash::group_hash_axioms;

/// The exit `e` exists, is open, and leads into the room numbered `b`.
pub open spec fn leads_to(e: Option<Exit>, b: usize) -> bool {
    e matches Some(x) && x.target == ExitTarget::Resolved(RoomId(b)) && x.traversability == Traversability::Open
}

/// Some open exit of room `r` leads into the room numbered `b`.
pub open spec fn room_leads_to(r: Room, b: usize) -> bool {
    ||| leads_to(r.exits.north, b)
    ||| leads_to(r.exits.south, b)
    ||| leads_to(r.exits.east, b)
    ||| leads_to(r.exits.west, b)
}

/// There is a room numbered `a`, and one of its open exits leads into `b`.
pub open spec fn edge(rooms: Map<usize, Room>, a: usize, b: usize) -> bool {
    rooms.contains_key(a) && room_leads_to(rooms[a], b)
}

/// `p` is a walk through the house: each step follows an open exit of an existing room.
pub open spec fn is_path(rooms: Map<usize, Room>, p: Seq<usize>) -> bool {
    &&& p.len() >= 1
    &&& forall|i: int| #![trigger p[i]] 0 <= i < p.len() - 1 ==> edge(rooms, p[i], p[i + 1])
}

/// Room `b` can be reached from room `a` by following open exits.
pub open spec fn reachable(rooms: Map<usize, Room>, a: usize, b: usize) -> bool {
    exists|p: Seq<usize>| #[trigger] is_path(rooms, p) && p[0] == a && p.last() == b
}

/// `n` is a first step from `from` on a walk that ends in `to`.
pub open spec fn is_step_toward(rooms: Map<usize, Room>, from: usize, to: usize, n: usize) -> bool {
    edge(rooms, from, n) && reachable(rooms, n, to)
}

/// Following the nodes of `p` one by one stays inside a set that is closed under exits.
proof fn lemma_closed_set_contains_path(rooms: Map<usize, Room>, s: Set<usize>, p: Seq<usize>, i: int)
    requires
        is_path(rooms, p),
        s.contains(p[0]),
        forall|a: usize, b: usize| s.contains(a) && #[trigger] edge(rooms, a, b) ==> s.contains(b),
        0 <= i < p.len(),
    ensures
        s.contains(p[i]),
    decreases i,
{
    if i > 0 {
        lemma_closed_set_contains_path(rooms, s, p, i - 1);
        assert(edge(rooms, p[i - 1], p[i]));
    }
}

/// One step along an exit followed by a walk is a walk.
pub proof fn lemma_step_then_reach(rooms: Map<usize, Room>, a: usize, n: usize, b: usize)
    requires
        edge(rooms, a, n),
        reachable(rooms, n, b),
    ensures
        reachable(rooms, a, b),
{
    let p = choose|p: Seq<usize>| #[trigger] is_path(rooms, p) && p[0] == n && p.last() == b;
    let np = seq![a].add(p);
    assert forall|i: int| #![trigger np[i]] 0 <= i < np.len() - 1 implies edge(rooms, np[i], np[i + 1]) by {
        if i > 0 {
            assert(np[i] == p[i - 1]);
            assert(np[i + 1] == p[i]);
        }
    }
    assert(is_path(rooms, np) && np[0] == a && np.last() == b);
}

/// There is a walk of at most `len` rooms from `a` to `b`.
pub open spec fn route_within(rooms: Map<usize, Room>, a: usize, b: usize, len: int) -> bool {
    exists|p: Seq<usize>| #[trigger] is_path(rooms, p) && p[0] == a && p.last() == b && p.len() <= len
}

/// `n` is the first step of a shortest walk from `from` to `to`: from `n` there is a walk to
/// `to` one room shorter than any walk from `from` to `to`.
pub open spec fn is_shortest_step(rooms: Map<usize, Room>, from: usize, to: usize, n: usize) -> bool {
    &&& edge(rooms, from, n)
    &&& forall|q: Seq<usize>| #[trigger] is_path(rooms, q) && q[0] == from && q.last() == to
        ==> route_within(rooms, n, to, q.len() - 1)
}

/// Of the walks from `a` to `b`, there is one with the fewest rooms.
pub proof fn lemma_shortest_walk_exists(rooms: Map<usize, Room>, a: usize, b: usize, p: Seq<usize>)
    requires
        is_path(rooms, p),
        p[0] == a,
        p.last() == b,
    ensures
        exists|m: Seq<usize>| #[trigger] is_path(rooms, m) && m[0] == a && m.last() == b
            && forall|q: Seq<usize>| #[trigger] is_path(rooms, q) && q[0] == a && q.last() == b ==> q.len() >= m.len(),
    decreases p.len(),
{
    if exists|q: Seq<usize>| #[trigger] is_path(rooms, q) && q[0] == a && q.last() == b && q.len() < p.len() {
        let q = choose|q: Seq<usize>| #[trigger] is_path(rooms, q) && q[0] == a && q.last() == b && q.len() < p.len();
        lemma_shortest_walk_exists(rooms, a, b, q);
    } else {
        assert(is_path(rooms, p) && p[0] == a && p.last() == b);
    }
}

/// When `to` can be reached from another room `from`, there is a next room on the way: the
/// first step of a shortest walk, through an open exit of `from`.
pub proof fn lemma_shortest_step_exists(rooms: Map<usize, Room>, from: usize, to: usize)
    requires
        from != to,
        reachable(rooms, from, to),
    ensures
        first_shortest_step(rooms, from, to) matches Some(n) && edge(rooms, from, n)
            && is_shortest_step(rooms, from, to, n),
{
    let p = choose|p: Seq<usize>| #[trigger] is_path(rooms, p) && p[0] == from && p.last() == to;
    lemma_shortest_walk_exists(rooms, from, to, p);
    let m = choose|m: Seq<usize>| #[trigger] is_path(rooms, m) && m[0] == from && m.last() == to
        && forall|q: Seq<usize>| #[trigger] is_path(rooms, q) && q[0] == from && q.last() == to ==> q.len() >= m.len();
    assert(m.len() >= 2);
    let n = m[1];
    assert(edge(rooms, m[0], m[1]));
    let tail = m.drop_first();
    assert forall|i: int| #![trigger tail[i]] 0 <= i < tail.len() - 1 implies edge(rooms, tail[i], tail[i + 1]) by {
        assert(tail[i] == m[i + 1] && tail[i + 1] == m[i + 2]);
    }
    assert(is_path(rooms, tail) && tail[0] == n && tail.last() == to);
    assert forall|q: Seq<usize>| #[trigger] is_path(rooms, q) && q[0] == from && q.last() == to
        implies route_within(rooms, n, to, q.len() - 1) by {
        assert(is_path(rooms, tail) && tail[0] == n && tail.last() == to && tail.len() <= q.len() - 1);
    }
    assert(is_shortest_step(rooms, from, to, n));
    let r = rooms[from];
    if leads_to(r.exits.north, n) {
        assert(shortest_via(rooms, from, to, Direction::North));
    } else if leads_to(r.exits.south, n) {
        assert(shortest_via(rooms, from, to, Direction::South));
    } else if leads_to(r.exits.east, n) {
        assert(shortest_via(rooms, from, to, Direction::East));
    } else {
        assert(leads_to(r.exits.west, n));
        assert(shortest_via(rooms, from, to, Direction::West));
    }
}

/// While a breadth-first search has expanded the first `t` rooms of its queue, where each
/// queued room is recorded with its depth in `depth`, a walk from a queued room adds at most one
/// to the depth per step, as long as the walk stays below the depth of room `t`.
proof fn lemma_walk_depth(rooms: Map<usize, Room>, queue: Seq<usize>, depth: Map<usize, int>, t: int,
    q: Seq<usize>, j: int)
    requires
        0 <= t < queue.len(),
        forall|k: usize| #[trigger] depth.contains_key(k) ==> queue.contains(k),
        forall|i: int| #![trigger queue[i]] 0 <= i < queue.len() ==> depth.contains_key(queue[i]),
        forall|i: int, k: int| #![trigger queue[i], queue[k]] 0 <= i <= k < queue.len()
            ==> depth[queue[i]] <= depth[queue[k]],
        forall|i: int, b: usize| #![trigger edge(rooms, queue[i], b)] 0 <= i < t && edge(rooms, queue[i], b)
            ==> depth.contains_key(b) && depth[b] <= depth[queue[i]] + 1,
        is_path(rooms, q),
        depth.contains_key(q[0]),
        0 <= j < q.len(),
        depth[q[0]] + j < depth[queue[t]],
    ensures
        depth.contains_key(q[j]),
        depth[q[j]] <= depth[q[0]] + j,
    decreases j,
{
    if j > 0 {
        lemma_walk_depth(rooms, queue, depth, t, q, j - 1);
        assert(queue.contains(q[j - 1]));
        let i = choose|i: int| 0 <= i < queue.len() && queue[i] == q[j - 1];
        if t <= i {
            assert(depth[queue[t]] <= depth[queue[i]]);
        }
        assert(edge(rooms, q[j - 1], q[j]));
        assert(edge(rooms, queue[i], q[j]));
    }
}

/// In that search, every walk from the start to room `t` has more rooms than its depth.
proof fn lemma_depth_is_shortest(rooms: Map<usize, Room>, queue: Seq<usize>, depth: Map<usize, int>, t: int)
    requires
        0 <= t < queue.len(),
        forall|k: usize| #[trigger] depth.contains_key(k) ==> queue.contains(k),
        forall|i: int| #![trigger queue[i]] 0 <= i < queue.len() ==> depth.contains_key(queue[i]),
        forall|i: int, k: int| #![trigger queue[i], queue[k]] 0 <= i <= k < queue.len()
            ==> depth[queue[i]] <= depth[queue[k]],
        forall|i: int, b: usize| #![trigger edge(rooms, queue[i], b)] 0 <= i < t && edge(rooms, queue[i], b)
            ==> depth.contains_key(b) && depth[b] <= depth[queue[i]] + 1,
        depth[queue[0]] == 0,
    ensures
        forall|q: Seq<usize>| #[trigger] is_path(rooms, q) && q[0] == queue[0] && q.last() == queue[t]
            ==> q.len() >= depth[queue[t]] + 1,
{
    assert forall|q: Seq<usize>| #[trigger] is_path(rooms, q) && q[0] == queue[0] && q.last() == queue[t]
        implies q.len() >= depth[queue[t]] + 1 by {
        if q.len() - 1 < depth[queue[t]] {
            assert(depth.contains_key(queue[0]));
            lemma_walk_depth(rooms, queue, depth, t, q, q.len() - 1);
        }
    }
}

/// The direction tried `j`-th: North, South, East, then West.
pub open spec fn dir_at(j: int) -> Direction {
    if j == 0 { Direction::North } else if j == 1 { Direction::South } else if j == 2 { Direction::East } else { Direction::West }
}

/// The room that the open exit of `r` in direction `d` leads into, if it is open and leads into one.
pub open spec fn open_target(r: Room, d: Direction) -> Option<usize> {
    match r.exits.at(d) {
        Some(e) => if e.traversability == Traversability::Open {
            match e.target {
                ExitTarget::Resolved(b) => Some(b.0),
                _ => None,
            }
        } else {
            None
        },
        None => None,
    }
}

/// The first direction, in the order North, South, East, West, whose open exit of `r` leads
/// into `b`; 4 when there is none.
pub open spec fn first_dir(r: Room, b: usize) -> int {
    if leads_to(r.exits.north, b) { 0 }
    else if leads_to(r.exits.south, b) { 1 }
    else if leads_to(r.exits.east, b) { 2 }
    else if leads_to(r.exits.west, b) { 3 }
    else { 4 }
}

/// The open exit of `from` in direction `d` leads to the first step of a shortest walk to `to`.
pub open spec fn shortest_via(rooms: Map<usize, Room>, from: usize, to: usize, d: Direction) -> bool {
    open_target(rooms[from], d) matches Some(b) && is_shortest_step(rooms, from, to, b)
}

/// The next room on the way from `from` to `to`: through the first exit, in the order North,
/// South, East, West, that starts a shortest walk to `to`; none when the rooms are the same
/// or `to` cannot be reached.
pub open spec fn first_shortest_step(rooms: Map<usize, Room>, from: usize, to: usize) -> Option<usize> {
    if from == to || !reachable(rooms, from, to) {
        None
    } else if shortest_via(rooms, from, to, Direction::North) {
        open_target(rooms[from], Direction::North)
    } else if shortest_via(rooms, from, to, Direction::South) {
        open_target(rooms[from], Direction::South)
    } else if shortest_via(rooms, from, to, Direction::East) {
        open_target(rooms[from], Direction::East)
    } else if shortest_via(rooms, from, to, Direction::West) {
        open_target(rooms[from], Direction::West)
    } else {
        None
    }
}

/// What a breadth-first search from `queue[0]` knows once its first `t` rooms are expanded:
/// each queued room has a depth, a parent one level up and, through `top`, the room of depth
/// one it descends from; rooms of equal depth descend in queue order, and the rooms of depth
/// one are queued in the order of the exits that lead to them.
pub open spec fn search_facts(rooms: Map<usize, Room>, queue: Seq<usize>, par: Seq<int>, depth: Map<usize, int>,
    top: Seq<int>, t: int) -> bool {
    &&& 1 <= t < queue.len()
    &&& queue.no_duplicates()
    &&& par.len() == queue.len()
    &&& top.len() == queue.len()
    &&& forall|k: usize| #[trigger] depth.contains_key(k) ==> queue.contains(k)
    &&& forall|i: int| #![trigger queue[i]] 0 <= i < queue.len() ==> depth.contains_key(queue[i])
    &&& depth[queue[0]] == 0
    &&& forall|i: int, k: int| #![trigger queue[i], queue[k]] 0 <= i <= k < queue.len()
        ==> depth[queue[i]] <= depth[queue[k]]
    &&& forall|i: int, b: usize| #![trigger edge(rooms, queue[i], b)] 0 <= i < t && edge(rooms, queue[i], b)
        ==> depth.contains_key(b) && depth[b] <= depth[queue[i]] + 1
    &&& forall|i: int| #![trigger par[i]] 1 <= i < queue.len() ==> {
        &&& 0 <= par[i] < i
        &&& edge(rooms, queue[par[i]], queue[i])
        &&& depth[queue[i]] == depth[queue[par[i]]] + 1
    }
    &&& forall|i: int| #![trigger top[i]] 1 <= i < queue.len() ==> {
        &&& 1 <= top[i] <= i
        &&& par[top[i]] == 0
        &&& (par[i] == 0 ==> top[i] == i)
        &&& (par[i] != 0 ==> top[i] == top[par[i]])
    }
    &&& forall|i: int, j: int| #![trigger top[i], top[j]] 1 <= i < j < queue.len()
        && depth[queue[i]] == depth[queue[j]] ==> top[i] <= top[j]
    &&& forall|i: int, b: usize| #![trigger edge(rooms, queue[i], b)] 0 <= i < t && edge(rooms, queue[i], b)
        && b != queue[0] ==> exists|k: int| 0 <= k < queue.len() && queue[k] == b && #[trigger] par[k] <= i
    &&& forall|i: int, j: int| #![trigger par[i], par[j]] 1 <= i < j < queue.len() && par[i] == 0 && par[j] == 0
        ==> first_dir(rooms[queue[0]], queue[i]) < first_dir(rooms[queue[0]], queue[j])
}

/// Along a shortest walk from the start to room `t` whose second room is the depth-one room
/// `queue[ib]`, every room lies at its own step's depth and descends from a depth-one room
/// queued no later than `queue[ib]`.
proof fn lemma_shortest_walk_top(rooms: Map<usize, Room>, queue: Seq<usize>, par: Seq<int>, depth: Map<usize, int>,
    top: Seq<int>, t: int, w: Seq<usize>, ib: int, k: int)
    requires
        search_facts(rooms, queue, par, depth, top, t),
        is_path(rooms, w),
        w[0] == queue[0],
        w.last() == queue[t],
        w.len() == depth[queue[t]] + 1,
        1 <= ib < queue.len(),
        par[ib] == 0,
        w[1] == queue[ib],
        1 <= k < w.len(),
    ensures
        exists|j: int| 0 <= j < queue.len() && queue[j] == w[k] && depth[queue[j]] == k && #[trigger] top[j] <= ib,
    decreases k,
{
    assert(depth.contains_key(queue[0]));
    assert(depth.contains_key(queue[t]));
    // the depth of w[k] is exactly k
    if k < depth[queue[t]] {
        lemma_walk_depth(rooms, queue, depth, t, w, k);
    }
    assert(depth.contains_key(w[k]));
    let sub = w.subrange(k, w.len() as int);
    assert forall|i: int| #![trigger sub[i]] 0 <= i < sub.len() - 1 implies edge(rooms, sub[i], sub[i + 1]) by {
        assert(sub[i] == w[k + i] && sub[i + 1] == w[k + i + 1]);
    }
    assert(is_path(rooms, sub));
    if depth[w[k]] < k {
        lemma_walk_depth(rooms, queue, depth, t, sub, sub.len() - 1);
        assert(sub[sub.len() - 1] == queue[t]);
    }
    assert(queue.contains(w[k]));
    let j = choose|j: int| 0 <= j < queue.len() && queue[j] == w[k];
    assert(depth[queue[j]] == k) by {
        if k == depth[queue[t]] {
            assert(w[k] == queue[t]);
        }
    }
    if k == 1 {
        assert(j == ib);
        assert(top[j] <= ib);
    } else {
        lemma_shortest_walk_top(rooms, queue, par, depth, top, t, w, ib, k - 1);
        let j2 = choose|j2: int| 0 <= j2 < queue.len() && queue[j2] == w[k - 1] && depth[queue[j2]] == k - 1 && #[trigger] top[j2] <= ib;
        if t <= j2 {
            assert(depth[queue[t]] <= depth[queue[j2]]);
        }
        assert(edge(rooms, w[k - 1], w[k]));
        assert(edge(rooms, queue[j2], w[k]));
        if w[k] == queue[0] {
            assert(depth[queue[0]] == 0);
        }
        let kk = choose|kk: int| 0 <= kk < queue.len() && queue[kk] == w[k] && #[trigger] par[kk] <= j2;
        assert(kk == j);
        assert(j >= 1) by {
            if j == 0 {
                assert(depth[queue[0]] == 0);
            }
        }
        assert(par[j] != 0) by {
            if par[j] == 0 {
                assert(depth[queue[j]] == depth[queue[0]] + 1);
            }
        }
        assert(top[j] == top[par[j]]);
        assert(depth[queue[par[j]]] == k - 1);
        assert(j2 >= 1) by {
            if j2 == 0 {
                assert(depth[queue[0]] == 0);
            }
        }
        if par[j] < j2 {
            assert(top[par[j]] <= top[j2]);
        }
    }
}

/// The search's answer for room `t` starts with the first exit of the start, in the order
/// North, South, East, West, that leads to the first step of a shortest walk.
proof fn lemma_first_step_is_first(rooms: Map<usize, Room>, queue: Seq<usize>, par: Seq<int>, depth: Map<usize, int>,
    top: Seq<int>, t: int, p: Seq<usize>)
    requires
        search_facts(rooms, queue, par, depth, top, t),
        is_path(rooms, p),
        p[0] == queue[top[t]],
        p.last() == queue[t],
        p.len() == depth[queue[t]],
        forall|q: Seq<usize>| #[trigger] is_path(rooms, q) && q[0] == queue[0] && q.last() == queue[t]
            ==> q.len() >= depth[queue[t]] + 1,
    ensures
        forall|j: int| 0 <= j < first_dir(rooms[queue[0]], queue[top[t]])
            ==> !#[trigger] shortest_via(rooms, queue[0], queue[t], dir_at(j)),
{
    let from = queue[0];
    let to = queue[t];
    let tt = top[t];
    assert(1 <= tt <= t);
    assert(par[tt] == 0);
    let qpath = seq![from].add(p);
    assert forall|i: int| #![trigger qpath[i]] 0 <= i < qpath.len() - 1 implies edge(rooms, qpath[i], qpath[i + 1]) by {
        if i == 0 {
            assert(qpath[1] == p[0]);
            assert(edge(rooms, queue[par[tt]], queue[tt]));
        } else {
            assert(qpath[i] == p[i - 1]);
            assert(qpath[i + 1] == p[i]);
        }
    }
    assert(is_path(rooms, qpath) && qpath[0] == from && qpath.last() == to);
    assert forall|j: int| 0 <= j < first_dir(rooms[from], queue[tt])
        implies !#[trigger] shortest_via(rooms, from, to, dir_at(j)) by {
        if shortest_via(rooms, from, to, dir_at(j)) {
            let b = open_target(rooms[from], dir_at(j))->0;
            assert(is_shortest_step(rooms, from, to, b));
            assert(leads_to(rooms[from].exits.at(dir_at(j)), b));
            assert(first_dir(rooms[from], b) <= j);
            assert(route_within(rooms, b, to, qpath.len() - 1));
            let w = choose|w: Seq<usize>| #[trigger] is_path(rooms, w) && w[0] == b && w.last() == to && w.len() <= qpath.len() - 1;
            let full = seq![from].add(w);
            assert forall|i: int| #![trigger full[i]] 0 <= i < full.len() - 1 implies edge(rooms, full[i], full[i + 1]) by {
                if i > 0 {
                    assert(full[i] == w[i - 1]);
                    assert(full[i + 1] == w[i]);
                }
            }
            assert(is_path(rooms, full) && full[0] == from && full.last() == to);
            assert(full.len() == depth[to] + 1);
            // b is queued at depth one
            assert(edge(rooms, queue[0], b));
            assert(depth.contains_key(b));
            assert(queue.contains(b));
            let ib = choose|ib: int| 0 <= ib < queue.len() && queue[ib] == b;
            assert(ib != 0) by {
                if ib == 0 {
                    assert(w[0] == from);
                    assert(is_path(rooms, w) && w[0] == queue[0] && w.last() == queue[t]);
                }
            }
            assert(par[ib] == 0) by {
                if par[ib] != 0 {
                    assert(depth[queue[ib]] == depth[queue[par[ib]]] + 1);
                    assert(depth[queue[0]] <= depth[queue[par[ib]]]);
                    assert(1 <= par[ib]);
                    assert(depth[queue[par[ib]]] >= 1) by {
                        assert(depth[queue[par[ib]]] == depth[queue[par[par[ib]]]] + 1);
                        assert(depth[queue[0]] <= depth[queue[par[par[ib]]]]);
                    }
                }
            }
            assert(full[1] == queue[ib]);
            lemma_shortest_walk_top(rooms, queue, par, depth, top, t, full, ib, full.len() - 1);
            let jt = choose|jt: int| 0 <= jt < queue.len() && queue[jt] == full[full.len() - 1]
                && depth[queue[jt]] == full.len() - 1 && #[trigger] top[jt] <= ib;
            assert(jt == t);
            if ib < tt {
            } else if ib == tt {
            } else {
                assert(first_dir(rooms[queue[0]], queue[tt]) < first_dir(rooms[queue[0]], queue[ib]));
            }
        }
    }
}

impl House {
    /// The first room on a shortest route from `from` to `to` through open exits that lead into
    /// known rooms (breadth-first search); locked, one-way and impassable exits are never taken.
    /// Of several shortest routes, the one leaving through the first exit in the order North,
    /// South, East, West is taken. `None` when the two are equal or `to` cannot be reached that way.
    #[verifier::rlimit(60)]
    pub fn next_step_toward(&self, from: RoomId, to: RoomId) -> (r: Option<RoomId>)
        ensures
            from == to ==> r is None,
            r matches Some(n) ==> is_step_toward(self.rooms@, from.0, to.0, n.0)
                && is_shortest_step(self.rooms@, from.0, to.0, n.0),
            from != to && reachable(self.rooms@, from.0, to.0) ==> r is Some,
            r == match first_shortest_step(self.rooms@, from.0, to.0) {
                Some(n) => Some(RoomId(n)),
                None => None::<RoomId>,
            },
    {
        if from.0 == to.0 {
            return None;
        }
        let ghost rooms = self.rooms@;
        let mut visited: HashMap<usize, usize> = HashMap::new();
        let mut queue: Vec<usize> = Vec::new();
        queue.push(from.0);
        let ghost mut par: Seq<int> = seq![0int];
        let ghost mut depth: Map<usize, int> = map![from.0 => 0int];
        let ghost mut top: Seq<int> = seq![0int];
        let mut head: usize = 0;
        proof {
            assert(queue@[0] == from.0);
        }
        while head < queue.len()
            invariant
                rooms == self.rooms@,
                from.0 != to.0,
                queue@.len() >= 1,
                queue@[0] == from.0,
                head <= queue@.len(),
                head == 0 ==> queue@.len() == 1,
                queue@.no_duplicates(),
                forall|k: usize| #[trigger] visited@.contains_key(k) ==> queue@.contains(k) && k != from.0,
                forall|i: int| 1 <= i < queue@.len() ==> #[trigger] visited@.contains_key(queue@[i]),
                par.len() == queue@.len(),
                forall|i: int| #![trigger par[i]] 1 <= i < queue@.len() ==> {
                    &&& 0 <= par[i] < i
                    &&& visited@[queue@[i]] == queue@[par[i]]
                    &&& edge(rooms, queue@[par[i]], queue@[i])
                    &&& depth[queue@[i]] == depth[queue@[par[i]]] + 1
                },
                forall|k: usize| #[trigger] depth.contains_key(k) ==> queue@.contains(k),
                forall|i: int| #![trigger queue@[i]] 0 <= i < queue@.len() ==> depth.contains_key(queue@[i]),
                depth[from.0] == 0,
                forall|i: int, k: int| #![trigger queue@[i], queue@[k]] 0 <= i <= k < queue@.len()
                    ==> depth[queue@[i]] <= depth[queue@[k]],
                head >= 1 ==> forall|k: int| #![trigger queue@[k]] 0 <= k < queue@.len()
                    ==> depth[queue@[k]] <= depth[queue@[head - 1]] + 1,
                forall|i: int, b: usize| #![trigger edge(rooms, queue@[i], b)] 0 <= i < head && edge(rooms, queue@[i], b)
                    ==> depth.contains_key(b) && depth[b] <= depth[queue@[i]] + 1,
                forall|i: int| 0 <= i < head ==> queue@[i] != to.0,
                top.len() == queue@.len(),
                forall|i: int| #![trigger par[i]] 1 <= i < queue@.len() ==> par[i] < head,
                forall|i: int| #![trigger top[i]] 1 <= i < queue@.len() ==> {
                    &&& 1 <= top[i] <= i
                    &&& par[top[i]] == 0
                    &&& (par[i] == 0 ==> top[i] == i)
                    &&& (par[i] != 0 ==> top[i] == top[par[i]])
                },
                forall|i: int, j: int| #![trigger top[i], top[j]] 1 <= i < j < queue@.len()
                    && depth[queue@[i]] == depth[queue@[j]] ==> top[i] <= top[j],
                forall|i: int, b: usize| #![trigger edge(rooms, queue@[i], b)] 0 <= i < head && edge(rooms, queue@[i], b)
                    && b != from.0 ==> exists|k: int| 0 <= k < queue@.len() && queue@[k] == b && #[trigger] par[k] <= i,
                forall|i: int, j: int| #![trigger par[i], par[j]] 1 <= i < j < queue@.len() && par[i] == 0 && par[j] == 0
                    ==> first_dir(rooms[from.0], queue@[i]) < first_dir(rooms[from.0], queue@[j]),
            decreases usize::MAX - head,
        {
            let current = queue[head];
            proof {
                if head >= 1 {
                    assert forall|k: int| #![trigger queue@[k]] 0 <= k < queue@.len()
                        implies depth[queue@[k]] <= depth[queue@[head as int]] + 1 by {
                        assert(depth[queue@[head - 1]] <= depth[queue@[head as int]]);
                    }
                }
            }
            head = head + 1;
            if current == to.0 {
                let ghost t = (head - 1) as int;
                proof {
                    lemma_depth_is_shortest(rooms, queue@, depth, t);
                    assert(t >= 1);
                    assert(search_facts(rooms, queue@, par, depth, top, t));
                }
                let mut step: usize = current;
                let ghost mut k: int = t;
                let ghost mut p: Seq<usize> = seq![to.0];
                loop
                    invariant
                        rooms == self.rooms@,
                        1 <= k < queue@.len(),
                        step == queue@[k],
                        queue@[0] == from.0,
                        queue@[t] == to.0,
                        queue@.no_duplicates(),
                        forall|i: int| 1 <= i < queue@.len() ==> #[trigger] visited@.contains_key(queue@[i]),
                        par.len() == queue@.len(),
                        forall|i: int| #![trigger par[i]] 1 <= i < queue@.len() ==> {
                            &&& 0 <= par[i] < i
                            &&& visited@[queue@[i]] == queue@[par[i]]
                            &&& edge(rooms, queue@[par[i]], queue@[i])
                            &&& depth[queue@[i]] == depth[queue@[par[i]]] + 1
                        },
                        depth[from.0] == 0,
                        forall|q: Seq<usize>| #[trigger] is_path(rooms, q) && q[0] == from.0 && q.last() == to.0
                            ==> q.len() >= depth[to.0] + 1,
                        is_path(rooms, p),
                        p[0] == step,
                        p.last() == to.0,
                        p.len() == depth[to.0] - depth[step] + 1,
                        from.0 != to.0,
                        search_facts(rooms, queue@, par, depth, top, t),
                        top[k] == top[t],
                    ensures
                        current != to.0,
                    decreases k,
                {
                    match visited.get(&step) {
                        Some(prev) => {
                            let prev = *prev;
                            let ghost j = par[k];
                            assert(prev == queue@[j]);
                            if prev == from.0 {
                                proof {
                                    assert(j == 0);
                                    assert(top[k] == k);
                                    assert(depth[queue@[k]] == 1);
                                    lemma_first_step_is_first(rooms, queue@, par, depth, top, t, p);
                                    let fd = first_dir(rooms[from.0], step);
                                    assert(edge(rooms, queue@[par[k]], queue@[k]));
                                    assert(fd < 4);
                                    assert(open_target(rooms[from.0], dir_at(fd)) == Some(step));
                                    assert(is_step_toward(rooms, from.0, to.0, step));
                                    assert forall|q: Seq<usize>| #[trigger] is_path(rooms, q) && q[0] == from.0
                                        && q.last() == to.0 implies route_within(rooms, step, to.0, q.len() - 1) by {
                                        assert(is_path(rooms, p) && p[0] == step && p.last() == to.0);
                                    }
                                    assert(shortest_via(rooms, from.0, to.0, dir_at(fd)));
                                    lemma_step_then_reach(rooms, from.0, step, to.0);
                                    if fd > 0 { assert(!shortest_via(rooms, from.0, to.0, dir_at(0))); }
                                    if fd > 1 { assert(!shortest_via(rooms, from.0, to.0, dir_at(1))); }
                                    if fd > 2 { assert(!shortest_via(rooms, from.0, to.0, dir_at(2))); }
                                    assert(first_shortest_step(rooms, from.0, to.0) == Some(step));
                                }
                                return Some(RoomId(step));
                            }
                            proof {
                                if j == 0 {
                                    assert(false);
                                }
                                let np = seq![prev].add(p);
                                assert(np[0] == prev);
                                assert forall|i: int| #![trigger np[i]] 0 <= i < np.len() - 1 implies edge(rooms, np[i], np[i + 1]) by {
                                    if i > 0 {
                                        assert(np[i] == p[i - 1]);
                                        assert(np[i + 1] == p[i]);
                                    }
                                }
                                p = np;
                                k = j;
                            }
                            step = prev;
                        },
                        None => {
                            assert(false);
                            break;
                        },
                    }
                }
            }
            match self.rooms.get(&current) {
                Some(room) => {
                    let dirs: [Direction; 4] = [Direction::North, Direction::South, Direction::East, Direction::West];
                    let mut di: usize = 0;
                    while di < 4
                        invariant
                            rooms == self.rooms@,
                            rooms.contains_key(current),
                            *room == rooms[current],
                            dirs@ == seq![Direction::North, Direction::South, Direction::East, Direction::West],
                            di <= 4,
                            current == queue@[head - 1],
                            from.0 != to.0,
                            1 <= head <= queue@.len(),
                            queue@[0] == from.0,
                            queue@.no_duplicates(),
                            forall|k: usize| #[trigger] visited@.contains_key(k) ==> queue@.contains(k) && k != from.0,
                            forall|i: int| 1 <= i < queue@.len() ==> #[trigger] visited@.contains_key(queue@[i]),
                            par.len() == queue@.len(),
                            forall|i: int| #![trigger par[i]] 1 <= i < queue@.len() ==> {
                                &&& 0 <= par[i] < i
                                &&& visited@[queue@[i]] == queue@[par[i]]
                                &&& edge(rooms, queue@[par[i]], queue@[i])
                                &&& depth[queue@[i]] == depth[queue@[par[i]]] + 1
                            },
                            forall|k: usize| #[trigger] depth.contains_key(k) ==> queue@.contains(k),
                            forall|i: int| #![trigger queue@[i]] 0 <= i < queue@.len() ==> depth.contains_key(queue@[i]),
                            depth[from.0] == 0,
                            forall|i: int, k: int| #![trigger queue@[i], queue@[k]] 0 <= i <= k < queue@.len()
                                ==> depth[queue@[i]] <= depth[queue@[k]],
                            forall|k: int| #![trigger queue@[k]] 0 <= k < queue@.len()
                                ==> depth[queue@[k]] <= depth[current] + 1,
                            forall|i: int, b: usize| #![trigger edge(rooms, queue@[i], b)] 0 <= i < head - 1 && edge(rooms, queue@[i], b)
                                ==> depth.contains_key(b) && depth[b] <= depth[queue@[i]] + 1,
                            forall|i: int| 0 <= i < head ==> queue@[i] != to.0,
                            forall|j: int, b: usize| 0 <= j < di && #[trigger] leads_to(room.exits.at(dirs@[j]), b) ==> queue@.contains(b),
                            top.len() == queue@.len(),
                            forall|i: int| #![trigger par[i]] 1 <= i < queue@.len() ==> par[i] < head,
                            forall|i: int| #![trigger top[i]] 1 <= i < queue@.len() ==> {
                                &&& 1 <= top[i] <= i
                                &&& par[top[i]] == 0
                                &&& (par[i] == 0 ==> top[i] == i)
                                &&& (par[i] != 0 ==> top[i] == top[par[i]])
                            },
                            forall|i: int, j: int| #![trigger top[i], top[j]] 1 <= i < j < queue@.len()
                                && depth[queue@[i]] == depth[queue@[j]] ==> top[i] <= top[j],
                            forall|i: int, b: usize| #![trigger edge(rooms, queue@[i], b)] 0 <= i < head - 1 && edge(rooms, queue@[i], b)
                                && b != from.0 ==> exists|k: int| 0 <= k < queue@.len() && queue@[k] == b && #[trigger] par[k] <= i,
                            forall|i: int, j: int| #![trigger par[i], par[j]] 1 <= i < j < queue@.len() && par[i] == 0 && par[j] == 0
                                ==> first_dir(rooms[from.0], queue@[i]) < first_dir(rooms[from.0], queue@[j]),
                            current == from.0 ==> forall|i: int| #![trigger par[i]] 1 <= i < queue@.len() && par[i] == 0
                                ==> first_dir(rooms[from.0], queue@[i]) < di,
                            current != from.0 ==> head >= 2,
                        decreases 4 - di,
                    {
                        let d = dirs[di];
                        match room.exits.get(d) {
                            Some(exit) => {
                                match exit.target {
                                    ExitTarget::Resolved(nb) => {
                                        if exit.traversability == Traversability::Open && !visited.contains_key(&nb.0)
                                            && nb.0 != from.0 {
                                            let ghost old_q = queue@;
                                            let ghost old_depth = depth;
                                            proof {
                                                assert(!queue@.contains(nb.0));
                                                assert(!depth.contains_key(nb.0));
                                                if current == from.0 {
                                                    assert(leads_to(room.exits.at(dirs@[di as int]), nb.0));
                                                    assert forall|j: int| 0 <= j < di implies !#[trigger] leads_to(room.exits.at(dirs@[j]), nb.0) by {
                                                        if leads_to(room.exits.at(dirs@[j]), nb.0) {
                                                            assert(queue@.contains(nb.0));
                                                        }
                                                    }
                                                    if di > 0 { assert(!leads_to(room.exits.at(dirs@[0]), nb.0)); }
                                                    if di > 1 { assert(!leads_to(room.exits.at(dirs@[1]), nb.0)); }
                                                    if di > 2 { assert(!leads_to(room.exits.at(dirs@[2]), nb.0)); }
                                                    assert(first_dir(rooms[from.0], nb.0) == di);
                                                }
                                            }
                                            visited.insert(nb.0, current);
                                            queue.push(nb.0);
                                            proof {
                                                let ghost old_par = par;
                                                let ghost old_top = top;
                                                par = par.push((head - 1) as int);
                                                depth = depth.insert(nb.0, old_depth[current] + 1);
                                                top = top.push(if head - 1 == 0 { old_q.len() as int } else { old_top[head - 1] });
                                                assert forall|i: int, b: usize| #![trigger edge(rooms, queue@[i], b)] 0 <= i < head - 1
                                                    && edge(rooms, queue@[i], b) && b != from.0
                                                    implies exists|k: int| 0 <= k < queue@.len() && queue@[k] == b && #[trigger] par[k] <= i by {
                                                    assert(queue@[i] == old_q[i]);
                                                    assert(edge(rooms, old_q[i], b));
                                                    let k = choose|k: int| 0 <= k < old_q.len() && old_q[k] == b && #[trigger] old_par[k] <= i;
                                                    assert(queue@[k] == b && par[k] == old_par[k]);
                                                }
                                                assert forall|i: int, j: int| #![trigger par[i], par[j]] 1 <= i < j < queue@.len()
                                                    && par[i] == 0 && par[j] == 0
                                                    implies first_dir(rooms[from.0], queue@[i]) < first_dir(rooms[from.0], queue@[j]) by {
                                                    assert(queue@[i] == old_q[i] && par[i] == old_par[i]);
                                                    if j < old_q.len() {
                                                        assert(queue@[j] == old_q[j] && par[j] == old_par[j]);
                                                    } else {
                                                        assert(head - 1 == 0);
                                                        assert(current == from.0);
                                                    }
                                                }
                                                assert(queue@[queue@.len() - 1] == nb.0);
                                                assert(edge(rooms, current, nb.0));
                                                assert forall|x: usize| old_q.contains(x) implies queue@.contains(x) by {
                                                    let w = choose|w: int| 0 <= w < old_q.len() && old_q[w] == x;
                                                    assert(queue@[w] == x);
                                                }
                                                assert forall|i: int| #![trigger queue@[i]] 0 <= i < old_q.len()
                                                    implies queue@[i] == old_q[i] && queue@[i] != nb.0
                                                        && depth[queue@[i]] == old_depth[old_q[i]] by {
                                                    assert(old_q.contains(old_q[i]));
                                                }
                                                assert forall|i: int| 1 <= i < queue@.len() implies #[trigger] visited@.contains_key(queue@[i]) by {
                                                    if i < old_q.len() {
                                                        assert(queue@[i] == old_q[i]);
                                                    }
                                                }
                                                assert forall|i: int| #![trigger par[i]] 1 <= i < queue@.len() implies {
                                                    &&& 0 <= par[i] < i
                                                    &&& visited@[queue@[i]] == queue@[par[i]]
                                                    &&& edge(rooms, queue@[par[i]], queue@[i])
                                                    &&& depth[queue@[i]] == depth[queue@[par[i]]] + 1
                                                } by {
                                                    if i < old_q.len() {
                                                        assert(queue@[i] == old_q[i]);
                                                        assert(queue@[par[i]] == old_q[par[i]]);
                                                        assert(old_q[i] != nb.0);
                                                    } else {
                                                        assert(queue@[par[i]] == old_q[head - 1]);
                                                    }
                                                }
                                                assert forall|i: int, k: int| #![trigger queue@[i], queue@[k]] 0 <= i <= k < queue@.len()
                                                    implies depth[queue@[i]] <= depth[queue@[k]] by {
                                                    if k == old_q.len() {
                                                        if i < old_q.len() {
                                                            assert(old_q[i] == queue@[i]);
                                                            assert(old_depth[old_q[i]] <= old_depth[current] + 1);
                                                        }
                                                    } else {
                                                        assert(old_depth[old_q[i]] <= old_depth[old_q[k]]);
                                                    }
                                                }
                                                assert forall|k: int| #![trigger queue@[k]] 0 <= k < queue@.len()
                                                    implies depth[queue@[k]] <= depth[current] + 1 by {
                                                    if k < old_q.len() {
                                                        assert(old_depth[old_q[k]] <= old_depth[current] + 1);
                                                    }
                                                }
                                                assert forall|i: int, b: usize| #![trigger edge(rooms, queue@[i], b)] 0 <= i < head - 1
                                                    && edge(rooms, queue@[i], b)
                                                    implies depth.contains_key(b) && depth[b] <= depth[queue@[i]] + 1 by {
                                                    assert(queue@[i] == old_q[i]);
                                                    assert(edge(rooms, old_q[i], b));
                                                }
                                                assert forall|k: usize| #[trigger] depth.contains_key(k) implies queue@.contains(k) by {
                                                    if k != nb.0 {
                                                        assert(old_depth.contains_key(k));
                                                        assert(old_q.contains(k));
                                                    }
                                                }
                                            }
                                        }
                                    },
                                    _ => {},
                                }
                            },
                            None => {},
                        }
                        di = di + 1;
                    }
                    proof {
                        assert forall|b: usize| #[trigger] edge(rooms, current, b) implies queue@.contains(b) by {
                            if leads_to(room.exits.at(dirs@[0]), b) {
                            } else if leads_to(room.exits.at(dirs@[1]), b) {
                            } else if leads_to(room.exits.at(dirs@[2]), b) {
                            } else {
                                assert(leads_to(room.exits.at(dirs@[3]), b));
                            }
                        }
                        assert forall|i: int, b: usize| #![trigger edge(rooms, queue@[i], b)] 0 <= i < head
                            && edge(rooms, queue@[i], b) && b != from.0
                            implies exists|k: int| 0 <= k < queue@.len() && queue@[k] == b && #[trigger] par[k] <= i by {
                            if i == head - 1 {
                                assert(queue@.contains(b));
                                let w = choose|w: int| 0 <= w < queue@.len() && queue@[w] == b;
                                assert(w != 0);
                                assert(par[w] < head);
                            }
                        }
                        assert forall|i: int, b: usize| #![trigger edge(rooms, queue@[i], b)] 0 <= i < head
                            && edge(rooms, queue@[i], b)
                            implies depth.contains_key(b) && depth[b] <= depth[queue@[i]] + 1 by {
                            if i == head - 1 {
                                assert(queue@.contains(b));
                                let w = choose|w: int| 0 <= w < queue@.len() && queue@[w] == b;
                                assert(depth[queue@[w]] <= depth[current] + 1);
                            }
                        }
                    }
                },
                None => {
                    proof {
                        assert forall|i: int, b: usize| #![trigger edge(rooms, queue@[i], b)] 0 <= i < head
                            && edge(rooms, queue@[i], b)
                            implies depth.contains_key(b) && depth[b] <= depth[queue@[i]] + 1 by {
                            if i == head - 1 {
                                assert(!rooms.contains_key(current));
                            }
                        }
                    }
                },
            }
        }
        proof {
            if reachable(rooms, from.0, to.0) {
                let p = choose|p: Seq<usize>| #[trigger] is_path(rooms, p) && p[0] == from.0 && p.last() == to.0;
                let s = queue@.to_set();
                assert forall|a: usize, b: usize| s.contains(a) && #[trigger] edge(rooms, a, b) implies s.contains(b) by {
                    let w = choose|w: int| 0 <= w < queue@.len() && queue@[w] == a;
                    assert(edge(rooms, queue@[w], b));
                    assert(depth.contains_key(b));
                }
                assert(s.contains(queue@[0]));
                lemma_closed_set_contains_path(rooms, s, p, p.len() - 1);
                let w = choose|w: int| 0 <= w < queue@.len() && queue@[w] == to.0;
                assert(queue@[w] != to.0);
            }
        }
        None
    }
}

} // verus!
