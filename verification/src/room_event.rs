use vstd::prelude::*;
use std::collections::HashMap;
use crate::monster::MonsterId;
use crate::house::RoomId;

verus! {

broadcast use vstd::std_specs::hash::group_hash_axioms;

/// What happens the first time the player enters a room.
#[derive(Debug, Clone, Copy, PartialEq, Eq, Structural)]
pub enum RoomEventKind {
    SpawnMonster(MonsterId),
}

/// One pending event per room, keyed by the number of the room's id.
pub struct RoomEventRegistry {
    events: HashMap<usize, RoomEventKind>,
}

impl View for RoomEventRegistry {
    type V = Map<usize, RoomEventKind>;

    closed spec fn view(&self) -> Map<usize, RoomEventKind> {
        self.events@
    }
}

impl RoomEventRegistry {
    /// No pending events.
    pub fn new() -> (r: RoomEventRegistry)
        ensures
            r@ == Map::<usize, RoomEventKind>::empty(),
    {
        RoomEventRegistry { events: HashMap::new() }
    }

    /// Sets (or replaces) the event of `room`.
    pub fn add_event(&mut self, room: RoomId, kind: RoomEventKind)
        ensures
            final(self)@ == old(self)@.insert(room.0, kind),
    {
        self.events.insert(room.0, kind);
    }

    /// Takes the event of `room`, if any: it fires only once.
    pub fn room_check(&mut self, room: RoomId) -> (r: Option<RoomEventKind>)
        ensures
            r == old(self)@.get(room.0),
            final(self)@ == old(self)@.remove(room.0),
    {
        self.events.remove(&room.0)
    }
}

} // verus!
