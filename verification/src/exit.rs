use vstd::prelude::*;
use crate::house::{Floor, RoomId};

verus! {

/// Whether an exit can be walked through.
#[derive(Debug, Clone, Copy, PartialEq, Eq, Structural)]
pub enum Traversability {
    Open,
    Locked,
    OneWay,
    Impassable,
}

/// Whether an exit is shown to the player.
#[derive(Debug, Clone, Copy, PartialEq, Eq, Structural)]
pub enum Visibility {
    Visible,
    Secret,
    Hidden,
}

/// Where an exit leads: a known room, a not yet generated position, or nowhere.
#[derive(Debug, Clone, Copy)]
pub enum ExitTarget {
    Resolved(RoomId),
    Unresolved { pos: (i32, i32), floor: Floor },
    SealedWall,
}

/// One exit of a room.
#[derive(Debug, Clone, Copy)]
pub struct Exit {
    pub target: ExitTarget,
    pub traversability: Traversability,
    pub visibility: Visibility,
}

impl Exit {
    /// An open, visible exit into `target`.
    pub fn new_open(target: RoomId) -> (e: Exit)
        ensures
            e == (Exit {
                target: ExitTarget::Resolved(target),
                traversability: Traversability::Open,
                visibility: Visibility::Visible,
            }),
    {
        Exit {
            target: ExitTarget::Resolved(target),
            traversability: Traversability::Open,
            visibility: Visibility::Visible,
        }
    }

    /// An open, visible exit towards a position that has no room yet.
    pub fn new_unresolved(pos: (i32, i32), floor: Floor) -> (e: Exit)
        ensures
            e == (Exit {
                target: ExitTarget::Unresolved { pos, floor },
                traversability: Traversability::Open,
                visibility: Visibility::Visible,
            }),
    {
        Exit {
            target: ExitTarget::Unresolved { pos, floor },
            traversability: Traversability::Open,
            visibility: Visibility::Visible,
        }
    }

    /// A visible wall that cannot be passed.
    pub fn sealed_wall() -> (e: Exit)
        ensures
            e == (Exit {
                target: ExitTarget::SealedWall,
                traversability: Traversability::Impassable,
                visibility: Visibility::Visible,
            }),
    {
        Exit {
            target: ExitTarget::SealedWall,
            traversability: Traversability::Impassable,
            visibility: Visibility::Visible,
        }
    }

    /// A visible, locked exit into `target`.
    pub fn locked(target: RoomId) -> (e: Exit)
        ensures
            e == (Exit {
                target: ExitTarget::Resolved(target),
                traversability: Traversability::Locked,
                visibility: Visibility::Visible,
            }),
    {
        Exit {
            target: ExitTarget::Resolved(target),
            traversability: Traversability::Locked,
            visibility: Visibility::Visible,
        }
    }

    /// A visible exit into `target` that can only be used one way.
    pub fn one_way(target: RoomId) -> (e: Exit)
        ensures
            e == (Exit {
                target: ExitTarget::Resolved(target),
                traversability: Traversability::OneWay,
                visibility: Visibility::Visible,
            }),
    {
        Exit {
            target: ExitTarget::Resolved(target),
            traversability: Traversability::OneWay,
            visibility: Visibility::Visible,
        }
    }

    /// An open exit into `target` that is not shown until discovered.
    pub fn secret(target: RoomId) -> (e: Exit)
        ensures
            e == (Exit {
                target: ExitTarget::Resolved(target),
                traversability: Traversability::Open,
                visibility: Visibility::Secret,
            }),
    {
        Exit {
            target: ExitTarget::Resolved(target),
            traversability: Traversability::Open,
            visibility: Visibility::Secret,
        }
    }
}

} // verus!
