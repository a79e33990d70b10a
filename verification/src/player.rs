use vstd::prelude::*;
use crate::exit::ExitTarget;
use crate::house::{Direction, House, Room, RoomId};
use crate::item::{owned_by, ItemError, ItemId, ItemRegistry, Owner};
use crate::text::join2;
use crate::house::name_spec;
use vstd::string::StringExecFns;

verus! {

broadcast use vstd::std_specs::hash::group_hash_axioms;

/// The player: where they are, what they last found, and their stats.
#[derive(Debug)]
pub struct Player {
    pub name: String,
    pub current_room: RoomId,
    pub found_item: Option<ItemId>,
    pub health: i32,
    pub strength: i32,
    pub speed: i32,
    pub moves_remaining: i32,
    pub max_health: i32,
}

/// The player's starting stats, as read from a configuration file.
pub struct PlayerConfig {
    pub name: String,
    pub health: i32,
    pub strength: i32,
    pub speed: i32,
}

/// A configuration that could not be used.
#[derive(Debug, Clone, Copy, PartialEq, Eq, Structural)]
pub enum ConfigError {
    InvalidConfig,
}

/// Why the player could not move.
#[derive(Debug, Clone, Copy, PartialEq, Eq, Structural)]
pub enum MoveError {
    InvalidMovement(Direction),
    NoMovesRemaining,
}

/// The room that the exit of room `r` in direction `d` leads into, if it leads into one.
pub open spec fn destination(r: Room, d: Direction) -> Option<RoomId> {
    match r.exits.at(d) {
        Some(e) => match e.target {
            ExitTarget::Resolved(t) => Some(t),
            _ => None,
        },
        None => None,
    }
}

impl Player {
    /// A player at `start` with full health and as many moves as their speed.
    pub fn new(name: String, start: RoomId, health: i32, strength: i32, speed: i32) -> (p: Player)
        ensures
            p == (Player {
                name,
                current_room: start,
                found_item: None,
                health,
                strength,
                speed,
                moves_remaining: speed,
                max_health: health,
            }),
    {
        Player {
            name,
            current_room: start,
            found_item: None,
            health,
            strength,
            speed,
            moves_remaining: speed,
            max_health: health,
        }
    }

    /// Walks through the exit in direction `dir` of the current room, when it leads into a room.
    pub fn move_player(&mut self, house: &House, dir: Direction) -> (r: Result<(), MoveError>)
        requires
            house.rooms@.contains_key(old(self).current_room.0),
        ensures
            match destination(house.rooms@[old(self).current_room.0], dir) {
                Some(t) => r == Ok::<(), MoveError>(()) && *final(self) == (Player { current_room: t, ..*old(self) }),
                None => r == Err::<(), MoveError>(MoveError::InvalidMovement(dir)) && *final(self) == *old(self),
            },
    {
        let room = match house.room(self.current_room) {
            Ok(room) => room,
            Err(_) => {
                return Err(MoveError::InvalidMovement(dir));
            },
        };
        match room.exits.get(dir) {
            Some(exit) => match exit.target {
                ExitTarget::Resolved(target) => {
                    self.current_room = target;
                    Ok(())
                },
                _ => Err(MoveError::InvalidMovement(dir)),
            },
            None => Err(MoveError::InvalidMovement(dir)),
        }
    }

    /// Looks for an item in the current room and remembers it as found.
    pub fn search_room(&mut self, registry: &ItemRegistry) -> (r: Result<(), ItemError>)
        ensures
            match r {
                Ok(()) => exists|i: ItemId| #[trigger] owned_by(registry.ownership@, Owner::Room(old(self).current_room)).contains(i)
                    && *final(self) == (Player { found_item: Some(i), ..*old(self) }),
                Err(e) => owned_by(registry.ownership@, Owner::Room(old(self).current_room)).is_empty()
                    && e == ItemError::NoItemsInRoom(old(self).current_room)
                    && *final(self) == *old(self),
            },
    {
        let items_here = registry.items_owned_by(Owner::Room(self.current_room));
        if items_here.len() > 0 {
            let item_id = items_here[0];
            proof {
                assert(items_here@.to_set().contains(item_id));
            }
            self.found_item = Some(item_id);
            Ok(())
        } else {
            proof {
                assert(items_here@.to_set() =~= Set::<ItemId>::empty());
            }
            Err(ItemError::NoItemsInRoom(self.current_room))
        }
    }
}

impl MoveError {
    /// The text of the error.
    pub fn message(&self) -> (r: String)
        ensures
            r@ == match *self {
                MoveError::InvalidMovement(d) => "You can't go this way: "@ + name_spec(d),
                MoveError::NoMovesRemaining => "No moves remaining"@,
            },
    {
        match self {
            MoveError::InvalidMovement(d) => join2("You can't go this way: ", d.name()),
            MoveError::NoMovesRemaining => String::from_str("No moves remaining"),
        }
    }
}

impl ConfigError {
    /// The text of the error.
    pub fn message(&self) -> (r: &'static str)
        ensures
            r@ == "check the toml file"@,
    {
        "check the toml file"
    }
}

} // verus!
