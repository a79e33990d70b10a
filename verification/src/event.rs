use vstd::prelude::*;
use crate::house::RoomId;

verus! {

/// Something that happened during a turn and that the game reacts to afterwards.
#[derive(Debug, Clone, Copy, PartialEq, Eq, Structural)]
pub enum GameEvent {
    PlayerMoved { from: RoomId, to: RoomId },
}

/// Events waiting to be processed, oldest first.
pub struct EventQueue {
    events: Vec<GameEvent>,
}

impl View for EventQueue {
    type V = Seq<GameEvent>;

    closed spec fn view(&self) -> Seq<GameEvent> {
        self.events@
    }
}

impl EventQueue {
    /// An empty queue.
    pub fn new() -> (q: EventQueue)
        ensures
            q@ == Seq::<GameEvent>::empty(),
    {
        EventQueue { events: Vec::new() }
    }

    /// Appends an event.
    pub fn push(&mut self, event: GameEvent)
        ensures
            final(self)@ == old(self)@.push(event),
    {
        self.events.push(event);
    }

    /// Takes all waiting events, oldest first, and leaves the queue empty.
    pub fn drain(&mut self) -> (r: Vec<GameEvent>)
        ensures
            r@ == old(self)@,
            final(self)@ == Seq::<GameEvent>::empty(),
    {
        let mut taken: Vec<GameEvent> = Vec::new();
        std::mem::swap(&mut taken, &mut self.events);
        taken
    }
}

} // verus!
