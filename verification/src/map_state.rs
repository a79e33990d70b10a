use vstd::prelude::*;
use std::collections::HashMap;
use crate::exit::{ExitTarget, Traversability};
use crate::house::{delta_spec, Direction, Floor, House, Room, RoomId};

verus! {

broadcast use vstd::std_specs::hash::group_hash_axioms;

/// An open exit of room `a`, on floor `floor`, in direction `d`, into room `b` on the same floor.
pub open spec fn open_link(rooms: Map<usize, Room>, floor: Floor, a: usize, d: Direction, b: usize) -> bool {
    &&& rooms.contains_key(a)
    &&& rooms[a].floor == floor
    &&& rooms[a].exits.at(d) matches Some(e)
    &&& e.traversability == Traversability::Open
    &&& e.target == ExitTarget::Resolved(RoomId(b))
    &&& rooms.contains_key(b)
    &&& rooms[b].floor == floor
}

/// `p` is `q` moved one step in direction `d`.
pub open spec fn one_step(q: (i32, i32), d: Direction, p: (i32, i32)) -> bool {
    p.0 == q.0 + delta_spec(d).0 && p.1 == q.1 + delta_spec(d).1
}

/// Room `b` at `pb` is one step from room `a` at `pa`, through an open exit of `a`.
pub open spec fn placed_next_to(rooms: Map<usize, Room>, floor: Floor, a: usize, pa: (i32, i32), b: usize, pb: (i32, i32)) -> bool {
    exists|d: Direction| #[trigger] open_link(rooms, floor, a, d, b) && one_step(pa, d, pb)
}

/// `par` names, for every entry after the first, an earlier entry it was placed from.
pub open spec fn parents_ok(rooms: Map<usize, Room>, floor: Floor, r: Seq<(RoomId, (i32, i32))>, par: Seq<int>) -> bool {
    &&& par.len() == r.len()
    &&& forall|i: int| #![trigger par[i]] 1 <= i < r.len() ==> {
        &&& 0 <= par[i] < i
        &&& placed_next_to(rooms, floor, r[par[i]].0.0, r[par[i]].1, r[i].0.0, r[i].1)
    }
}

/// `w` is a walk on `floor` through open exits.
pub open spec fn is_floor_walk(rooms: Map<usize, Room>, floor: Floor, w: Seq<usize>) -> bool {
    &&& w.len() >= 1
    &&& forall|i: int| #![trigger w[i]] 0 <= i < w.len() - 1
        ==> exists|d: Direction| #[trigger] open_link(rooms, floor, w[i], d, w[i + 1])
}

/// Following `par` from an entry back to the first takes as many steps as the fewest-step walk
/// on the floor from the first entry's room to that entry's room: each room is placed along a
/// shortest route.
pub open spec fn fewest_steps(rooms: Map<usize, Room>, floor: Floor, r: Seq<(RoomId, (i32, i32))>, par: Seq<int>) -> bool {
    exists|dep: Seq<int>| {
        &&& #[trigger] dep.len() == r.len()
        &&& dep[0] == 0
        &&& forall|i: int| #![trigger dep[i]] 1 <= i < r.len() ==> dep[i] == dep[par[i]] + 1
        &&& forall|i: int, w: Seq<usize>| 0 <= i < r.len() && #[trigger] is_floor_walk(rooms, floor, w)
            && w[0] == r[0].0.0 && w.last() == (#[trigger] r[i]).0.0 ==> w.len() >= dep[i] + 1
    }
}

/// A map layout: the first entry is `start`; every later entry is placed one step from an
/// earlier entry that has an open exit into it, along a fewest-step route from `start`; and
/// every open exit from a placed room on the floor leads into a placed room.
pub open spec fn is_layout(rooms: Map<usize, Room>, start: RoomId, floor: Floor, r: Seq<(RoomId, (i32, i32))>) -> bool {
    &&& r.len() >= 1
    &&& r[0].0 == start
    &&& forall|i: int, j: int| 0 <= i < r.len() && 0 <= j < r.len() && i != j ==> (#[trigger] r[i]).0 != (#[trigger] r[j]).0
    &&& exists|par: Seq<int>| #[trigger] parents_ok(rooms, floor, r, par) && fewest_steps(rooms, floor, r, par)
    &&& forall|i: int, d: Direction, b: usize| 0 <= i < r.len() && #[trigger] open_link(rooms, floor, r[i].0.0, d, b)
        ==> exists|k: int| 0 <= k < r.len() && (#[trigger] r[k]).0.0 == b
}

/// All coordinates are at least zero, and both reach zero.
pub open spec fn is_normalized(r: Seq<(RoomId, (i32, i32))>) -> bool {
    &&& forall|i: int| #![trigger r[i]] 0 <= i < r.len() ==> r[i].1.0 >= 0 && r[i].1.1 >= 0
    &&& exists|i: int| 0 <= i < r.len() && (#[trigger] r[i]).1.0 == 0
    &&& exists|i: int| 0 <= i < r.len() && (#[trigger] r[i]).1.1 == 0
}

/// The queue of a breadth-first walk holds no repeats, so it is no longer than the rooms plus the start.
proof fn lemma_queue_bound(q: Seq<usize>, dom: Set<usize>)
    requires
        q.len() >= 1,
        q.no_duplicates(),
        dom.finite(),
        forall|i: int| 1 <= i < q.len() ==> dom.contains(#[trigger] q[i]),
    ensures
        q.len() <= dom.len() + 1,
{
    let t = q.drop_first();
    assert(t.no_duplicates()) by {
        assert forall|i: int, j: int| 0 <= i < j < t.len() implies t[i] != t[j] by {
            assert(t[i] == q[i + 1]);
            assert(t[j] == q[j + 1]);
        }
    }
    t.unique_seq_to_set();
    assert(t.to_set().subset_of(dom)) by {
        assert forall|x: usize| t.to_set().contains(x) implies dom.contains(x) by {
            let w = choose|w: int| 0 <= w < t.len() && t[w] == x;
            assert(q[w + 1] == x);
        }
    }
    vstd::set_lib::lemma_len_subset(t.to_set(), dom);
}

/// Once a breadth-first walk has expanded every queued room, a walk on the floor from the first
/// room reaches the room of its `j`-th step at a queue entry of depth at most `j`.
proof fn lemma_floor_walk_depth(rooms: Map<usize, Room>, floor: Floor, queue: Seq<usize>, dep: Seq<int>,
    w: Seq<usize>, j: int)
    requires
        dep.len() == queue.len(),
        queue.len() >= 1,
        dep[0] == 0,
        forall|i: int, d: Direction, b: usize| 0 <= i < queue.len() && #[trigger] open_link(rooms, floor, queue[i], d, b)
            ==> exists|k: int| 0 <= k < queue.len() && queue[k] == b && #[trigger] dep[k] <= dep[i] + 1,
        is_floor_walk(rooms, floor, w),
        w[0] == queue[0],
        0 <= j < w.len(),
    ensures
        exists|k: int| 0 <= k < queue.len() && queue[k] == w[j] && #[trigger] dep[k] <= j,
    decreases j,
{
    if j == 0 {
        assert(dep[0] <= 0);
    } else {
        lemma_floor_walk_depth(rooms, floor, queue, dep, w, j - 1);
        let i = choose|i: int| 0 <= i < queue.len() && queue[i] == w[j - 1] && #[trigger] dep[i] <= j - 1;
        let d = choose|d: Direction| #[trigger] open_link(rooms, floor, w[j - 1], d, w[j]);
        assert(open_link(rooms, floor, queue[i], d, w[j]));
        let k = choose|k: int| 0 <= k < queue.len() && queue[k] == w[j] && #[trigger] dep[k] <= dep[i] + 1;
        assert(dep[k] <= j);
    }
}

/// The invariant of the position map during the walk: the queue lists the placed rooms without
/// repeats, starting with `start`, each coordinate bounded by its place in the queue.
pub open spec fn placement_ok(rooms: Map<usize, Room>, start: usize, queue: Seq<usize>, positions: Map<usize, (i32, i32)>) -> bool {
    &&& queue.len() >= 1
    &&& queue[0] == start
    &&& queue.no_duplicates()
    &&& forall|i: int| 1 <= i < queue.len() ==> rooms.contains_key(#[trigger] queue[i])
    &&& forall|k: usize| #[trigger] positions.contains_key(k) <==> queue.contains(k)
    &&& forall|i: int| #![trigger queue[i]] 0 <= i < queue.len() ==> {
        &&& -i <= positions[queue[i]].0 <= i
        &&& -i <= positions[queue[i]].1 <= i
    }
}

/// Places the unplaced rooms behind the open exits of room `current` (at `(cx, cy)`, the
/// `h`-th room of the queue) on the same floor, one step away, and queues them.
fn explore_exits(house: &House, current: usize, h: usize, cx: i32, cy: i32, floor: Floor,
    positions: &mut HashMap<usize, (i32, i32)>, queue: &mut Vec<usize>, start: usize)
    requires
        house.rooms@.len() < 0x1000_0000,
        house.rooms@.dom().finite(),
        house.rooms@.contains_key(current),
        house.rooms@[current].floor == floor,
        placement_ok(house.rooms@, start, old(queue)@, old(positions)@),
        h < old(queue)@.len(),
        old(queue)@[h as int] == current,
        (cx, cy) == old(positions)@[current],
    ensures
        placement_ok(house.rooms@, start, final(queue)@, final(positions)@),
        old(queue)@.len() <= final(queue)@.len(),
        final(queue)@.subrange(0, old(queue)@.len() as int) == old(queue)@,
        forall|k: usize| #[trigger] old(positions)@.contains_key(k) ==> final(positions)@[k] == old(positions)@[k],
        forall|i: int| #![trigger final(queue)@[i]] old(queue)@.len() <= i < final(queue)@.len() ==>
            placed_next_to(house.rooms@, floor, current, (cx, cy), final(queue)@[i], final(positions)@[final(queue)@[i]]),
        forall|d: Direction, b: usize| #[trigger] open_link(house.rooms@, floor, current, d, b) ==> final(queue)@.contains(b),
{
    let ghost rooms = house.rooms@;
    let ghost q0 = queue@;
    let ghost p0 = positions@;
    proof {
        assert(q0[h as int] == current);
        assert(-h <= cx <= h && -h <= cy <= h);
        lemma_queue_bound(q0, rooms.dom());
    }
    let room = match house.room(RoomId(current)) {
        Ok(room) => room,
        Err(_) => {
            return;
        },
    };
    let dirs = Direction::all();
    let mut di: usize = 0;
    while di < 4
        invariant
            rooms == house.rooms@,
            rooms.len() < 0x1000_0000,
            rooms.dom().finite(),
            rooms.contains_key(current),
            *room == rooms[current],
            room.floor == floor,
            dirs@ == seq![Direction::North, Direction::South, Direction::East, Direction::West],
            di <= 4,
            h < q0.len(),
            q0[h as int] == current,
            (cx, cy) == p0[current],
            -h <= cx <= h,
            -h <= cy <= h,
            q0.len() <= rooms.len() + 1,
            placement_ok(rooms, start, queue@, positions@),
            q0.len() <= queue@.len(),
            queue@.subrange(0, q0.len() as int) == q0,
            forall|k: usize| #[trigger] p0.contains_key(k) ==> positions@.contains_key(k) && positions@[k] == p0[k],
            forall|i: int| #![trigger queue@[i]] q0.len() <= i < queue@.len() ==>
                placed_next_to(rooms, floor, current, (cx, cy), queue@[i], positions@[queue@[i]]),
            forall|j: int, b: usize| 0 <= j < di && #[trigger] open_link(rooms, floor, current, dirs@[j], b)
                ==> queue@.contains(b),
        decreases 4 - di,
    {
        let dir = dirs[di];
        match room.exits.get(dir) {
            Some(exit) => {
                let open = match exit.traversability {
                    Traversability::Open => true,
                    _ => false,
                };
                if open {
                    match exit.target {
                        ExitTarget::Resolved(neighbor) => {
                            match house.room(neighbor) {
                                Ok(neighbor_room) => {
                                    if neighbor_room.floor == floor && !positions.contains_key(&neighbor.0) {
                                        let ghost old_q = queue@;
                                        let ghost old_p = positions@;
                                        proof {
                                            lemma_queue_bound(old_q, rooms.dom());
                                            assert(!old_q.contains(neighbor.0));
                                            assert(q0[h as int] == old_q[h as int]);
                                        }
                                        let (dx, dy) = dir.delta();
                                        positions.insert(neighbor.0, (cx + dx, cy + dy));
                                        queue.push(neighbor.0);
                                        proof {
                                            assert(queue@[queue@.len() - 1] == neighbor.0);
                                            assert(open_link(rooms, floor, current, dir, neighbor.0));
                                            assert(queue@.subrange(0, q0.len() as int) =~= q0) by {
                                                assert forall|i: int| 0 <= i < q0.len() implies queue@[i] == q0[i] by {
                                                    assert(old_q.subrange(0, q0.len() as int)[i] == q0[i]);
                                                }
                                            }
                                            assert forall|k: usize| #[trigger] p0.contains_key(k) implies positions@.contains_key(k) && positions@[k] == p0[k] by {
                                                assert(old_p.contains_key(k));
                                            }
                                            assert forall|x: usize| old_q.contains(x) implies queue@.contains(x) by {
                                                let w = choose|w: int| 0 <= w < old_q.len() && old_q[w] == x;
                                                assert(queue@[w] == x);
                                            }
                                            assert forall|k: usize| #[trigger] positions@.contains_key(k) <==> queue@.contains(k) by {
                                                if queue@.contains(k) && k != neighbor.0 {
                                                    let w = choose|w: int| 0 <= w < queue@.len() && queue@[w] == k;
                                                    assert(old_q[w] == k);
                                                }
                                            }
                                            assert forall|i: int| 1 <= i < queue@.len() implies rooms.contains_key(#[trigger] queue@[i]) by {
                                                if i < old_q.len() {
                                                    assert(queue@[i] == old_q[i]);
                                                }
                                            }
                                            assert forall|i: int| #![trigger queue@[i]] 0 <= i < queue@.len() implies {
                                                &&& -i <= positions@[queue@[i]].0 <= i
                                                &&& -i <= positions@[queue@[i]].1 <= i
                                            } by {
                                                if i < old_q.len() {
                                                    assert(queue@[i] == old_q[i]);
                                                    assert(old_q[i] != neighbor.0);
                                                }
                                            }
                                            assert forall|i: int| #![trigger queue@[i]] q0.len() <= i < queue@.len() implies
                                                placed_next_to(rooms, floor, current, (cx, cy), queue@[i], positions@[queue@[i]]) by {
                                                if i < old_q.len() {
                                                    assert(queue@[i] == old_q[i]);
                                                    assert(old_q[i] != neighbor.0);
                                                    assert(placed_next_to(rooms, floor, current, (cx, cy), old_q[i], old_p[old_q[i]]));
                                                } else {
                                                    assert(open_link(rooms, floor, current, dir, queue@[i]));
                                                    assert(one_step((cx, cy), dir, positions@[queue@[i]]));
                                                }
                                            }
                                        }
                                    }
                                },
                                Err(_) => {},
                            }
                        },
                        _ => {},
                    }
                }
            },
            None => {},
        }
        di = di + 1;
    }
    proof {
        assert forall|d: Direction, b: usize| #[trigger] open_link(rooms, floor, current, d, b) implies queue@.contains(b) by {
            match d {
                Direction::North => assert(open_link(rooms, floor, current, dirs@[0], b)),
                Direction::South => assert(open_link(rooms, floor, current, dirs@[1], b)),
                Direction::East => assert(open_link(rooms, floor, current, dirs@[2], b)),
                Direction::West => assert(open_link(rooms, floor, current, dirs@[3], b)),
            }
        }
    }
}

/// Lays out the rooms of `floor` reachable from `start` through open exits, one grid step per
/// exit (breadth-first; the first room to reach another places it), shifted so that the
/// smallest coordinates are zero.
pub fn compute_positions(house: &House, start: RoomId, floor: Floor) -> (r: Vec<(RoomId, (i32, i32))>)
    requires
        house.rooms@.len() < 0x1000_0000,
    ensures
        is_layout(house.rooms@, start, floor, r@),
        is_normalized(r@),
{
    let ghost rooms = house.rooms@;
    let mut positions: HashMap<usize, (i32, i32)> = HashMap::new();
    positions.insert(start.0, (0, 0));
    let mut queue: Vec<usize> = Vec::new();
    queue.push(start.0);
    let ghost mut par: Seq<int> = seq![0int];
    let ghost mut dep: Seq<int> = seq![0int];
    let mut head: usize = 0;
    proof {
        assert(house.rooms@.dom().finite());
        assert(queue@[0] == start.0);
        assert forall|k: usize| #[trigger] positions@.contains_key(k) <==> queue@.contains(k) by {
            if queue@.contains(k) {
                let w = choose|w: int| 0 <= w < queue@.len() && queue@[w] == k;
                assert(w == 0);
            }
            if k == start.0 {
                assert(queue@[0] == k);
            }
        }
    }
    while head < queue.len()
        invariant
            rooms == house.rooms@,
            rooms.len() < 0x1000_0000,
            rooms.dom().finite(),
            placement_ok(rooms, start.0, queue@, positions@),
            head <= queue@.len(),
            positions@[start.0] == (0i32, 0i32),
            par.len() == queue@.len(),
            forall|i: int| #![trigger par[i]] 1 <= i < queue@.len() ==> {
                &&& 0 <= par[i] < i
                &&& placed_next_to(rooms, floor, queue@[par[i]], positions@[queue@[par[i]]], queue@[i], positions@[queue@[i]])
            },
            forall|i: int, d: Direction, b: usize| 0 <= i < head && #[trigger] open_link(rooms, floor, queue@[i], d, b)
                ==> queue@.contains(b),
            dep.len() == queue@.len(),
            dep[0] == 0,
            head == 0 ==> queue@.len() == 1,
            forall|i: int| #![trigger dep[i]] 1 <= i < queue@.len() ==> dep[i] == dep[par[i]] + 1,
            forall|i: int, k: int| #![trigger dep[i], dep[k]] 0 <= i <= k < queue@.len() ==> dep[i] <= dep[k],
            head >= 1 ==> forall|k: int| #![trigger dep[k]] 0 <= k < queue@.len() ==> dep[k] <= dep[head - 1] + 1,
            forall|i: int, d: Direction, b: usize| 0 <= i < head && #[trigger] open_link(rooms, floor, queue@[i], d, b)
                ==> exists|k: int| 0 <= k < queue@.len() && queue@[k] == b && #[trigger] dep[k] <= dep[i] + 1,
        decreases usize::MAX - head,
    {
        let current = queue[head];
        let (cx, cy) = match positions.get(&current) {
            Some(p) => *p,
            None => (0, 0),
        };
        let ghost q0 = queue@;
        let ghost p0 = positions@;
        proof {
            if head >= 1 {
                assert forall|k: int| #![trigger dep[k]] 0 <= k < queue@.len() implies dep[k] <= dep[head as int] + 1 by {
                    assert(dep[head - 1] <= dep[head as int]);
                }
            }
        }
        let on_floor = match house.room(RoomId(current)) {
            Ok(room) => room.floor == floor,
            Err(_) => false,
        };
        if on_floor {
            explore_exits(house, current, head, cx, cy, floor, &mut positions, &mut queue, start.0);
            proof {
                let n0 = q0.len();
                let added = (queue@.len() - n0) as nat;
                let newpar = par + Seq::new(added, |t: int| head as int);
                let newdep = dep + Seq::new(added, |t: int| dep[head as int] + 1);
                assert forall|i: int| 0 <= i < n0 implies queue@[i] == q0[i] by {
                    assert(queue@.subrange(0, n0 as int)[i] == q0[i]);
                }
                assert forall|i: int| #![trigger newpar[i]] 1 <= i < queue@.len() implies {
                    &&& 0 <= newpar[i] < i
                    &&& placed_next_to(rooms, floor, queue@[newpar[i]], positions@[queue@[newpar[i]]], queue@[i], positions@[queue@[i]])
                } by {
                    if i < n0 {
                        assert(newpar[i] == par[i]);
                        assert(queue@[par[i]] == q0[par[i]]);
                        assert(p0.contains_key(q0[par[i]]));
                        assert(p0.contains_key(q0[i]));
                    } else {
                        assert(queue@[i] == queue@[n0 + (i - n0)]);
                        assert(newpar[i] == head);
                        assert(queue@[head as int] == current);
                        assert(p0.contains_key(current));
                    }
                }
                assert forall|i: int, d: Direction, b: usize| 0 <= i < head + 1 && #[trigger] open_link(rooms, floor, queue@[i], d, b)
                    implies queue@.contains(b) by {
                    if i < head {
                        assert(queue@[i] == q0[i]);
                        assert(q0.contains(b));
                        let w = choose|w: int| 0 <= w < q0.len() && q0[w] == b;
                        assert(queue@[w] == b);
                    } else {
                        assert(queue@[i] == current);
                    }
                }
                assert forall|i: int| #![trigger newdep[i]] 1 <= i < queue@.len() implies newdep[i] == newdep[newpar[i]] + 1 by {
                    if i < n0 {
                        assert(newdep[i] == dep[i] && newpar[i] == par[i] && newdep[par[i]] == dep[par[i]]);
                    } else {
                        assert(newpar[i] == head && newdep[head as int] == dep[head as int]);
                    }
                }
                assert forall|i: int, k: int| #![trigger newdep[i], newdep[k]] 0 <= i <= k < queue@.len()
                    implies newdep[i] <= newdep[k] by {
                    if k >= n0 && i < n0 {
                        assert(newdep[i] == dep[i]);
                        assert(dep[i] <= dep[head as int] + 1);
                    } else if k < n0 {
                        assert(newdep[i] == dep[i] && newdep[k] == dep[k]);
                    }
                }
                assert forall|k: int| #![trigger newdep[k]] 0 <= k < queue@.len() implies newdep[k] <= newdep[head as int] + 1 by {
                    if k < n0 {
                        assert(newdep[k] == dep[k]);
                    }
                }
                assert forall|i: int, d: Direction, b: usize| 0 <= i < head + 1 && #[trigger] open_link(rooms, floor, queue@[i], d, b)
                    implies exists|k: int| 0 <= k < queue@.len() && queue@[k] == b && #[trigger] newdep[k] <= newdep[i] + 1 by {
                    if i < head {
                        assert(queue@[i] == q0[i]);
                        let k = choose|k: int| 0 <= k < q0.len() && q0[k] == b && #[trigger] dep[k] <= dep[i] + 1;
                        assert(queue@[k] == b && newdep[k] == dep[k] && newdep[i] == dep[i]);
                    } else {
                        assert(queue@[i] == current);
                        assert(queue@.contains(b));
                        let k = choose|k: int| 0 <= k < queue@.len() && queue@[k] == b;
                        assert(newdep[k] <= newdep[head as int] + 1);
                    }
                }
                par = newpar;
                dep = newdep;
            }
        } else {
            proof {
                assert forall|d: Direction, b: usize| !open_link(rooms, floor, current, d, b) by {}
                assert forall|k: int| #![trigger dep[k]] 0 <= k < queue@.len() implies dep[k] <= dep[head as int] + 1 by {
                    if head >= 1 {
                        assert(dep[head - 1] <= dep[head as int]);
                    }
                }
            }
        }
        head = head + 1;
    }
    proof {
        lemma_queue_bound(queue@, rooms.dom());
    }
    let mut placed: Vec<(RoomId, (i32, i32))> = Vec::new();
    let mut k: usize = 0;
    while k < queue.len()
        invariant
            k <= queue@.len(),
            placed@.len() == k,
            placement_ok(rooms, start.0, queue@, positions@),
            queue@.len() <= rooms.len() + 1,
            rooms.len() < 0x1000_0000,
            forall|i: int| #![trigger placed@[i]] 0 <= i < k ==> placed@[i] == (RoomId(queue@[i]), positions@[queue@[i]]),
        decreases queue@.len() - k,
    {
        let id = queue[k];
        let pos = match positions.get(&id) {
            Some(p) => *p,
            None => (0, 0),
        };
        proof {
            assert(queue@.contains(id));
        }
        placed.push((RoomId(id), pos));
        k = k + 1;
    }
    let r = normalize_positions(placed);
    proof {
        let s = r@;
        assert forall|i: int, j: int| 0 <= i < s.len() && 0 <= j < s.len() && i != j implies (#[trigger] s[i]).0 != (#[trigger] s[j]).0 by {
            assert(placed@[i].0 == RoomId(queue@[i]));
            assert(placed@[j].0 == RoomId(queue@[j]));
        }
        assert forall|i: int| #![trigger par[i]] 1 <= i < s.len() implies {
            &&& 0 <= par[i] < i
            &&& placed_next_to(rooms, floor, s[par[i]].0.0, s[par[i]].1, s[i].0.0, s[i].1)
        } by {
            let j = par[i];
            assert(placed@[i] == (RoomId(queue@[i]), positions@[queue@[i]]));
            assert(placed@[j] == (RoomId(queue@[j]), positions@[queue@[j]]));
            assert(s[i].1.0 - s[j].1.0 == placed@[i].1.0 - placed@[j].1.0);
            assert(s[i].1.1 - s[j].1.1 == placed@[i].1.1 - placed@[j].1.1);
            let d = choose|d: Direction| #[trigger] open_link(rooms, floor, queue@[j], d, queue@[i])
                && one_step(positions@[queue@[j]], d, positions@[queue@[i]]);
            assert(open_link(rooms, floor, s[j].0.0, d, s[i].0.0) && one_step(s[j].1, d, s[i].1));
        }
        assert(parents_ok(rooms, floor, s, par));
        assert forall|i: int, w: Seq<usize>| 0 <= i < s.len() && #[trigger] is_floor_walk(rooms, floor, w)
            && w[0] == s[0].0.0 && w.last() == (#[trigger] s[i]).0.0 implies w.len() >= dep[i] + 1 by {
            assert(placed@[0].0 == RoomId(queue@[0]));
            assert(placed@[i].0 == RoomId(queue@[i]));
            lemma_floor_walk_depth(rooms, floor, queue@, dep, w, w.len() - 1);
            let k = choose|k: int| 0 <= k < queue@.len() && queue@[k] == w[w.len() - 1] && #[trigger] dep[k] <= w.len() - 1;
            assert(k == i);
        }
        assert(fewest_steps(rooms, floor, s, par));
        assert forall|i: int, d: Direction, b: usize| 0 <= i < s.len() && #[trigger] open_link(rooms, floor, s[i].0.0, d, b)
            implies exists|k: int| 0 <= k < s.len() && (#[trigger] s[k]).0.0 == b by {
            assert(placed@[i].0 == RoomId(queue@[i]));
            let w = choose|w: int| 0 <= w < queue@.len() && queue@[w] == b;
            assert(placed@[w].0 == RoomId(queue@[w]));
            assert(s[w].0.0 == b);
        }
        assert(placed@[0].0 == RoomId(queue@[0]));

    }
    r
}

/// The entries moved so that the smallest x and the smallest y are zero.
fn normalize_positions(positions: Vec<(RoomId, (i32, i32))>) -> (r: Vec<(RoomId, (i32, i32))>)
    requires
        positions@.len() >= 1,
        forall|i: int| #![trigger positions@[i]] 0 <= i < positions@.len() ==> {
            &&& -0x2000_0000 <= positions@[i].1.0 <= 0x2000_0000
            &&& -0x2000_0000 <= positions@[i].1.1 <= 0x2000_0000
        },
    ensures
        r@.len() == positions@.len(),
        is_normalized(r@),
        forall|i: int| #![trigger r@[i]] 0 <= i < r@.len() ==> r@[i].0 == positions@[i].0,
        forall|i: int, j: int| 0 <= i < r@.len() && 0 <= j < r@.len() ==> {
            &&& (#[trigger] r@[i]).1.0 - (#[trigger] r@[j]).1.0 == positions@[i].1.0 - positions@[j].1.0
            &&& r@[i].1.1 - r@[j].1.1 == positions@[i].1.1 - positions@[j].1.1
        },
{
    let mut min_x: i32 = positions[0].1.0;
    let mut min_y: i32 = positions[0].1.1;
    let mut ix: usize = 0;
    let mut iy: usize = 0;
    let mut i: usize = 1;
    while i < positions.len()
        invariant
            1 <= i <= positions@.len(),
            ix < i,
            iy < i,
            positions@[ix as int].1.0 == min_x,
            positions@[iy as int].1.1 == min_y,
            forall|j: int| 0 <= j < i ==> min_x <= (#[trigger] positions@[j]).1.0 && min_y <= positions@[j].1.1,
        decreases positions@.len() - i,
    {
        if positions[i].1.0 < min_x {
            min_x = positions[i].1.0;
            ix = i;
        }
        if positions[i].1.1 < min_y {
            min_y = positions[i].1.1;
            iy = i;
        }
        i = i + 1;
    }
    let mut r: Vec<(RoomId, (i32, i32))> = Vec::new();
    let mut k: usize = 0;
    while k < positions.len()
        invariant
            k <= positions@.len(),
            r@.len() == k,
            ix < positions@.len(),
            iy < positions@.len(),
            positions@[ix as int].1.0 == min_x,
            positions@[iy as int].1.1 == min_y,
            forall|j: int| 0 <= j < positions@.len() ==> min_x <= (#[trigger] positions@[j]).1.0 && min_y <= positions@[j].1.1,
            forall|j: int| #![trigger positions@[j]] 0 <= j < positions@.len() ==> {
                &&& -0x2000_0000 <= positions@[j].1.0 <= 0x2000_0000
                &&& -0x2000_0000 <= positions@[j].1.1 <= 0x2000_0000
            },
            forall|j: int| #![trigger r@[j]] 0 <= j < k ==> {
                &&& r@[j].0 == positions@[j].0
                &&& r@[j].1.0 == positions@[j].1.0 - min_x
                &&& r@[j].1.1 == positions@[j].1.1 - min_y
            },
        decreases positions@.len() - k,
    {
        let (id, (x, y)) = positions[k];
        r.push((id, (x - min_x, y - min_y)));
        k = k + 1;
    }
    proof {
        assert(r@[ix as int].1.0 == 0);
        assert(r@[iy as int].1.1 == 0);
    }
    r
}

/// The width and height of the grid the layout needs: one more than the largest x and y
/// (which are taken as 0 for an empty layout).
pub fn grid_bounds(positions: &Vec<(RoomId, (i32, i32))>) -> (r: (i32, i32))
    requires
        forall|i: int| #![trigger positions@[i]] 0 <= i < positions@.len() ==> positions@[i].1.0 < i32::MAX && positions@[i].1.1 < i32::MAX,
    ensures
        r.0 == max_x(positions@) + 1,
        r.1 == max_y(positions@) + 1,
{
    let mut mx: i32 = 0;
    let mut my: i32 = 0;
    let mut i: usize = 0;
    while i < positions.len()
        invariant
            i <= positions@.len(),
            forall|j: int| #![trigger positions@[j]] 0 <= j < positions@.len() ==> positions@[j].1.0 < i32::MAX && positions@[j].1.1 < i32::MAX,
            mx == max_x(positions@.take(i as int)),
            my == max_y(positions@.take(i as int)),
            mx < i32::MAX,
            my < i32::MAX,
        decreases positions@.len() - i,
    {
        proof {
            let t = positions@.take(i + 1);
            assert(t.drop_last() =~= positions@.take(i as int));
            assert(t.last() == positions@[i as int]);
        }
        let (x, y) = positions[i].1;
        if i == 0 || x > mx {
            mx = x;
        }
        if i == 0 || y > my {
            my = y;
        }
        i = i + 1;
    }
    proof {
        assert(positions@.take(positions@.len() as int) =~= positions@);
    }
    (mx + 1, my + 1)
}

/// The largest x of the entries, or 0 when there are none.
pub open spec fn max_x(s: Seq<(RoomId, (i32, i32))>) -> i32
    decreases s.len(),
{
    if s.len() == 0 {
        0
    } else if s.len() == 1 {
        s[0].1.0
    } else {
        let m = max_x(s.drop_last());
        if s.last().1.0 > m { s.last().1.0 } else { m }
    }
}

/// The largest y of the entries, or 0 when there are none.
pub open spec fn max_y(s: Seq<(RoomId, (i32, i32))>) -> i32
    decreases s.len(),
{
    if s.len() == 0 {
        0
    } else if s.len() == 1 {
        s[0].1.1
    } else {
        let m = max_y(s.drop_last());
        if s.last().1.1 > m { s.last().1.1 } else { m }
    }
}

/// One side of a map cell: the side of the area shared among `n` rooms (`n` cut to 16 bits),
/// but at least 3.
pub open spec fn cell_side(area_side: u16, n: i32) -> int {
    let share = area_side as int / (n as u16) as int;
    if share < 3 { 3 } else { share }
}

/// Where a cell starts along one axis: the area's start plus `pos` (cut to 16 bits) sides.
pub open spec fn cell_start(area_start: u16, area_side: u16, n: i32, pos: i32) -> int {
    area_start + (pos as u16) as int * cell_side(area_side, n)
}

/// The cell of the map room at grid position `pos`, in the area at (`ax`, `ay`) of width `aw`
/// and height `ah` that shows a grid of `grid` rooms, as x, y, width and height; `None` when
/// the grid has no column or row (after cutting to 16 bits) or the cell lies beyond 16 bits.
pub fn map_cell(ax: u16, ay: u16, aw: u16, ah: u16, grid: (i32, i32), pos: (i32, i32)) -> (r: Option<(u16, u16, u16, u16)>)
    ensures
        r == (if (grid.0 as u16) != 0 && (grid.1 as u16) != 0
            && cell_start(ax, aw, grid.0, pos.0) <= u16::MAX && cell_start(ay, ah, grid.1, pos.1) <= u16::MAX {
            Some((cell_start(ax, aw, grid.0, pos.0) as u16, cell_start(ay, ah, grid.1, pos.1) as u16,
                cell_side(aw, grid.0) as u16, cell_side(ah, grid.1) as u16))
        } else {
            None
        }),
{
    #[verifier::truncate]
    let gw: u16 = grid.0 as u16;
    #[verifier::truncate]
    let gh: u16 = grid.1 as u16;
    if gw == 0 || gh == 0 {
        return None;
    }
    let share_w = aw / gw;
    let share_h = ah / gh;
    let cw: u16 = if share_w < 3 { 3 } else { share_w };
    let ch: u16 = if share_h < 3 { 3 } else { share_h };
    #[verifier::truncate]
    let px: u16 = pos.0 as u16;
    #[verifier::truncate]
    let py: u16 = pos.1 as u16;
    let x = match px.checked_mul(cw) {
        Some(off) => off.checked_add(ax),
        None => None,
    };
    let y = match py.checked_mul(ch) {
        Some(off) => off.checked_add(ay),
        None => None,
    };
    proof {
        assert(0 <= ax as int);
        assert(0 <= (px as int) * (cw as int)) by (nonlinear_arith)
            requires
                0 <= px,
                0 <= cw,
        ;
        assert(0 <= (py as int) * (ch as int)) by (nonlinear_arith)
            requires
                0 <= py,
                0 <= ch,
        ;
    }
    match (x, y) {
        (Some(x), Some(y)) => Some((x, y, cw, ch)),
        _ => None,
    }
}

} // verus!
