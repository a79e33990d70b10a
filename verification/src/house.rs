use vstd::prelude::*;
use std::collections::{HashMap, HashSet, VecDeque};
use crate::exit::{Exit, ExitTarget, Traversability, Visibility};
use crate::item::ItemId;
use crate::text::{join3, nat_text, usize_to_string};

verus! {

broadcast use vstd::std_specs::hash::group_hash_axioms;

/// Identifier of a room.
#[derive(Debug, Clone, Copy, PartialEq, Eq, Structural, Hash)]
pub struct RoomId(pub usize);

/// The storey a room stands on.
#[derive(Debug, Clone, Copy, PartialEq, Eq, Structural, Hash)]
pub enum Floor {
    Basement,
    FirstFloor,
    SecondFloor,
    Attic,
}

/// The four compass directions in which a room can have an exit.
#[derive(Debug, Clone, Copy, PartialEq, Eq, Structural, Hash)]
pub enum Direction {
    North,
    South,
    East,
    West,
}

/// The shape of a room: how many standard exits it has, or which special connector it is.
#[derive(Debug, Clone, Copy, PartialEq, Eq, Structural)]
pub enum RoomType {
    DeadEnd,
    Corner,
    Passage,
    Split,
    Crossroads,
    Stairway,
    SecretPassage,
    HoleInFloor,
    Elevator,
    Portal,
}

pub open spec fn exit_count_spec(t: RoomType) -> usize {
    match t {
        RoomType::DeadEnd => 1,
        RoomType::Corner => 2,
        RoomType::Passage => 2,
        RoomType::Split => 3,
        RoomType::Crossroads => 4,
        _ => 0,
    }
}

impl RoomType {
    /// Number of standard exits of this room shape (0 for the special connectors).
    pub fn exit_count(&self) -> (n: usize)
        ensures
            n == exit_count_spec(*self),
    {
        match self {
            RoomType::DeadEnd => 1,
            RoomType::Corner => 2,
            RoomType::Passage => 2,
            RoomType::Split => 3,
            RoomType::Crossroads => 4,
            _ => 0,
        }
    }
}

/// Special behaviour of a connector room.
#[derive(Debug, Clone, Copy, PartialEq, Eq, Structural)]
pub enum ExitLogic {
    Stairway { target_floor: Floor },
    Hole { target_floor: Floor },
    Elevator { target_floor: Option<Floor> },
    SecretPassage { target_floor: Option<Floor> },
}

/// What a room holds and how it is described.
#[derive(Debug)]
pub struct RoomContent {
    pub name: String,
    pub description: String,
    pub items: Vec<ItemId>,
    pub clues: Vec<String>,
    pub monster_theme: String,
    pub monster_spawnable: bool,
    pub one_way_exits: HashSet<Direction>,
    pub exit_logic: Option<ExitLogic>,
}

impl RoomContent {
    /// A fresh content record: the given name and description, and nothing else.
    pub open spec fn is_fresh(self, name: Seq<char>, description: Seq<char>) -> bool {
        &&& self.name@ == name
        &&& self.description@ == description
        &&& self.items@ == Seq::<ItemId>::empty()
        &&& self.clues@ == Seq::<String>::empty()
        &&& self.monster_theme@ == Seq::<char>::empty()
        &&& !self.monster_spawnable
        &&& self.one_way_exits@ == Set::<Direction>::empty()
        &&& self.exit_logic is None
    }

    pub fn new(name: &str, description: &str) -> (c: RoomContent)
        ensures
            c.is_fresh(name@, description@),
    {
        RoomContent {
            name: name.to_string(),
            description: description.to_string(),
            items: Vec::new(),
            clues: Vec::new(),
            monster_theme: String::new(),
            monster_spawnable: false,
            one_way_exits: HashSet::new(),
            exit_logic: None,
        }
    }
}

/// The exits of a room, at most one per direction.
#[derive(Debug, Clone, Copy)]
pub struct ExitMap {
    pub north: Option<Exit>,
    pub south: Option<Exit>,
    pub east: Option<Exit>,
    pub west: Option<Exit>,
}

impl ExitMap {
    /// The exit in direction `d`, if any.
    pub open spec fn at(self, d: Direction) -> Option<Exit> {
        match d {
            Direction::North => self.north,
            Direction::South => self.south,
            Direction::East => self.east,
            Direction::West => self.west,
        }
    }

    /// The same exits, with the one in direction `d` set to `e`.
    pub open spec fn with(self, d: Direction, e: Exit) -> ExitMap {
        match d {
            Direction::North => ExitMap { north: Some(e), ..self },
            Direction::South => ExitMap { south: Some(e), ..self },
            Direction::East => ExitMap { east: Some(e), ..self },
            Direction::West => ExitMap { west: Some(e), ..self },
        }
    }

    /// The directions that have an exit, in the order North, South, East, West.
    pub open spec fn present(self) -> Seq<Direction> {
        let n = if self.north is Some { seq![Direction::North] } else { Seq::empty() };
        let s = if self.south is Some { seq![Direction::South] } else { Seq::empty() };
        let e = if self.east is Some { seq![Direction::East] } else { Seq::empty() };
        let w = if self.west is Some { seq![Direction::West] } else { Seq::empty() };
        n + s + e + w
    }

    /// No exits at all.
    pub fn new() -> (m: ExitMap)
        ensures
            forall|d: Direction| m.at(d) is None,
    {
        ExitMap { north: None, south: None, east: None, west: None }
    }

    pub fn get(&self, d: Direction) -> (r: Option<Exit>)
        ensures
            r == self.at(d),
    {
        match d {
            Direction::North => self.north,
            Direction::South => self.south,
            Direction::East => self.east,
            Direction::West => self.west,
        }
    }

    /// Sets the exit in direction `d`, replacing any exit there.
    pub fn insert(&mut self, d: Direction, e: Exit)
        ensures
            *final(self) == old(self).with(d, e),
    {
        match d {
            Direction::North => self.north = Some(e),
            Direction::South => self.south = Some(e),
            Direction::East => self.east = Some(e),
            Direction::West => self.west = Some(e),
        }
    }

    /// The directions that have an exit, North, South, East, West in that order.
    pub fn directions(&self) -> (r: Vec<Direction>)
        ensures
            r@ == self.present(),
    {
        let mut r: Vec<Direction> = Vec::new();
        if self.north.is_some() {
            r.push(Direction::North);
        }
        if self.south.is_some() {
            r.push(Direction::South);
        }
        if self.east.is_some() {
            r.push(Direction::East);
        }
        if self.west.is_some() {
            r.push(Direction::West);
        }
        proof {
            assert(r@ =~= self.present());
        }
        r
    }
}

/// One room of the house.
#[derive(Debug)]
pub struct Room {
    pub id: RoomId,
    pub pos: (i32, i32),
    pub floor: Floor,
    pub room_type: RoomType,
    pub exits: ExitMap,
    pub content: RoomContent,
}

/// An exit whose room is not generated yet.
#[derive(Debug, Clone, Copy)]
pub struct FrontierExit {
    pub parent_room_id: RoomId,
    pub parent_pos: (i32, i32),
    pub parent_floor: Floor,
    pub exit_direction: Direction,
}

/// A room shape waiting in the deck.
#[derive(Debug, Clone)]
pub struct RoomTemplate {
    pub room_type: RoomType,
    pub content_id: String,
}

/// Failures of house lookups.
#[derive(Debug, Clone, Copy, PartialEq, Eq, Structural)]
pub enum HouseError {
    RoomNotFound(RoomId),
}

/// The house: its rooms, keyed by the number of their id, and a grid of occupied positions.
pub struct House {
    pub rooms: HashMap<usize, Room>,
    pub position_grid: HashMap<u128, RoomId>,
    pub entrance_id: RoomId,
    pub frontier: VecDeque<FrontierExit>,
    pub room_deck: Vec<RoomTemplate>,
    pub generation_seed: u64,
    pub next_room_id: u32,
}

pub open spec fn floor_index(f: Floor) -> int {
    match f {
        Floor::Basement => 0,
        Floor::FirstFloor => 1,
        Floor::SecondFloor => 2,
        Floor::Attic => 3,
    }
}

/// The key under which a grid position is stored: x, y and the floor packed into one number.
pub open spec fn grid_key(x: i32, y: i32, f: Floor) -> u128 {
    (((x as int + 0x8000_0000) * 0x1_0000_0000 + (y as int + 0x8000_0000)) * 4 + floor_index(f)) as u128
}

fn grid_key_of(x: i32, y: i32, f: Floor) -> (k: u128)
    ensures
        k == grid_key(x, y, f),
{
    let fx: u128 = match f {
        Floor::Basement => 0,
        Floor::FirstFloor => 1,
        Floor::SecondFloor => 2,
        Floor::Attic => 3,
    };
    let a: u128 = (x as i64 + 0x8000_0000i64) as u128;
    let b: u128 = (y as i64 + 0x8000_0000i64) as u128;
    assert(a * 0x1_0000_0000 + b <= 0xffff_ffff_ffff_ffff) by (nonlinear_arith)
        requires
            a < 0x1_0000_0000,
            b < 0x1_0000_0000,
    ;
    (a * 0x1_0000_0000 + b) * 4 + fx
}

/// A room just added: the given placement, no exits, and fresh content with the given name
/// and an empty description.
pub open spec fn is_new_room(r: Room, id: RoomId, name: Seq<char>, floor: Floor, pos: (i32, i32), room_type: RoomType) -> bool {
    &&& r.id == id
    &&& r.pos == pos
    &&& r.floor == floor
    &&& r.room_type == room_type
    &&& forall|d: Direction| #[trigger] r.exits.at(d) is None
    &&& r.content.is_fresh(name, Seq::<char>::empty())
}

/// Room `r` with its exit in direction `d` replaced by an open exit into `to`.
pub open spec fn with_open_exit(r: Room, d: Direction, to: RoomId) -> Room {
    Room {
        exits: r.exits.with(d, Exit {
            target: ExitTarget::Resolved(to),
            traversability: Traversability::Open,
            visibility: Visibility::Visible,
        }),
        ..r
    }
}

/// The rooms after a one-way connection from `from` in direction `d` to `to`.
pub open spec fn connected(rooms: Map<usize, Room>, from: RoomId, d: Direction, to: RoomId) -> Map<usize, Room> {
    rooms.insert(from.0, with_open_exit(rooms[from.0], d, to))
}

/// The rooms after a two-way connection: `a` leads to `b` in direction `d`, and `b` back to `a`.
pub open spec fn connected_two_way(rooms: Map<usize, Room>, a: RoomId, d: Direction, b: RoomId) -> Map<usize, Room> {
    connected(connected(rooms, a, d, b), b, opposite_spec(d), a)
}

/// Everything but the rooms and the grid is the same in both houses.
pub open spec fn same_plan(h1: &House, h2: &House) -> bool {
    &&& h1.entrance_id == h2.entrance_id
    &&& h1.frontier@ == h2.frontier@
    &&& h1.room_deck@ == h2.room_deck@
    &&& h1.generation_seed == h2.generation_seed
    &&& h1.next_room_id == h2.next_room_id
}

impl House {
    /// Adds (or replaces) the room `id` with the given name, placement and shape, no exits
    /// and an empty description, and records it in the position grid.
    pub fn add_room(&mut self, id: RoomId, name: &str, floor: Floor, pos: (i32, i32), room_type: RoomType)
        ensures
            final(self).rooms@ == old(self).rooms@.insert(id.0, final(self).rooms@[id.0]),
            is_new_room(final(self).rooms@[id.0], id, name@, floor, pos, room_type),
            final(self).position_grid@ == old(self).position_grid@.insert(grid_key(pos.0, pos.1, floor), id),
            same_plan(old(self), final(self)),
    {
        let content = RoomContent::new(name, "");
        let room = Room { id, pos, floor, room_type, exits: ExitMap::new(), content };
        self.rooms.insert(id.0, room);
        let key = grid_key_of(pos.0, pos.1, floor);
        self.position_grid.insert(key, id);
        proof {
            assert(""@ == Seq::<char>::empty()) by {
                reveal_strlit("");
            }
        }
    }

    /// One-way connection: gives room `from` an open exit in direction `dir` into `to`.
    pub fn connect(&mut self, from: RoomId, dir: Direction, to: RoomId) -> (r: Result<(), HouseError>)
        ensures
            match r {
                Ok(()) => old(self).rooms@.contains_key(from.0)
                    && final(self).rooms@ == connected(old(self).rooms@, from, dir, to),
                Err(e) => !old(self).rooms@.contains_key(from.0)
                    && e == HouseError::RoomNotFound(from)
                    && final(self).rooms@ == old(self).rooms@,
            },
            final(self).position_grid@ == old(self).position_grid@,
            same_plan(old(self), final(self)),
    {
        match self.rooms.remove(&from.0) {
            Some(mut room) => {
                room.exits.insert(dir, Exit::new_open(to));
                self.rooms.insert(from.0, room);
                proof {
                    assert(final(self).rooms@ =~= connected(old(self).rooms@, from, dir, to));
                }
                Ok(())
            },
            None => Err(HouseError::RoomNotFound(from)),
        }
    }

    /// Two-way connection: `a` leads to `b` in direction `dir`, and `b` back to `a` in the
    /// opposite direction. When `a` exists but `b` does not, the first exit is already made.
    pub fn connect_two_way(&mut self, a: RoomId, dir: Direction, b: RoomId) -> (r: Result<(), HouseError>)
        ensures
            match r {
                Ok(()) => old(self).rooms@.contains_key(a.0) && old(self).rooms@.contains_key(b.0)
                    && final(self).rooms@ == connected_two_way(old(self).rooms@, a, dir, b),
                Err(e) => if !old(self).rooms@.contains_key(a.0) {
                    e == HouseError::RoomNotFound(a) && final(self).rooms@ == old(self).rooms@
                } else {
                    !old(self).rooms@.contains_key(b.0) && e == HouseError::RoomNotFound(b)
                        && final(self).rooms@ == connected(old(self).rooms@, a, dir, b)
                },
            },
            final(self).position_grid@ == old(self).position_grid@,
            same_plan(old(self), final(self)),
    {
        match self.connect(a, dir, b) {
            Ok(()) => {},
            Err(e) => {
                return Err(e);
            },
        }
        match self.connect(b, dir.opposite(), a) {
            Ok(()) => {},
            Err(e) => {
                return Err(e);
            },
        }
        Ok(())
    }

    /// An empty house with its entrance at room 0.
    pub fn new() -> (h: House)
        ensures
            h.rooms@ == Map::<usize, Room>::empty(),
            h.position_grid@ == Map::<u128, RoomId>::empty(),
            h.entrance_id == RoomId(0),
            h.frontier@ == Seq::<FrontierExit>::empty(),
            h.room_deck@ == Seq::<RoomTemplate>::empty(),
            h.generation_seed == 0,
            h.next_room_id == 0,
    {
        House {
            rooms: HashMap::new(),
            position_grid: HashMap::new(),
            entrance_id: RoomId(0),
            frontier: VecDeque::new(),
            room_deck: Vec::new(),
            generation_seed: 0,
            next_room_id: 0,
        }
    }

    /// The room with the given id.
    pub fn room(&self, id: RoomId) -> (r: Result<&Room, HouseError>)
        ensures
            match r {
                Ok(room) => self.rooms@.contains_key(id.0) && *room == self.rooms@[id.0],
                Err(e) => !self.rooms@.contains_key(id.0) && e == HouseError::RoomNotFound(id),
            },
    {
        match self.rooms.get(&id.0) {
            Some(room) => Ok(room),
            None => Err(HouseError::RoomNotFound(id)),
        }
    }
}

pub open spec fn delta_spec(d: Direction) -> (i32, i32) {
    match d {
        Direction::North => (0i32, -1i32),
        Direction::South => (0i32, 1i32),
        Direction::East => (1i32, 0i32),
        Direction::West => (-1i32, 0i32),
    }
}

pub open spec fn name_spec(d: Direction) -> Seq<char> {
    match d {
        Direction::North => "North"@,
        Direction::South => "South"@,
        Direction::East => "East"@,
        Direction::West => "West"@,
    }
}

impl Direction {
    /// The grid step of one move in this direction (y grows to the south).
    pub fn delta(&self) -> (r: (i32, i32))
        ensures
            r == delta_spec(*self),
    {
        match self {
            Direction::North => (0, -1),
            Direction::South => (0, 1),
            Direction::East => (1, 0),
            Direction::West => (-1, 0),
        }
    }

    /// All four directions, North, South, East, West.
    pub fn all() -> (r: [Direction; 4])
        ensures
            r@ == seq![Direction::North, Direction::South, Direction::East, Direction::West],
    {
        [Direction::North, Direction::South, Direction::East, Direction::West]
    }

    /// The direction's name.
    pub fn name(&self) -> (r: &'static str)
        ensures
            r@ == name_spec(*self),
    {
        match self {
            Direction::North => "North",
            Direction::South => "South",
            Direction::East => "East",
            Direction::West => "West",
        }
    }

    /// The direction pointing the other way.
    pub fn opposite(self) -> (r: Direction)
        ensures
            r == opposite_spec(self),
    {
        match self {
            Direction::North => Direction::South,
            Direction::South => Direction::North,
            Direction::East => Direction::West,
            Direction::West => Direction::East,
        }
    }
}

pub open spec fn opposite_spec(d: Direction) -> Direction {
    match d {
        Direction::North => Direction::South,
        Direction::South => Direction::North,
        Direction::East => Direction::West,
        Direction::West => Direction::East,
    }
}

impl HouseError {
    /// The text of the error.
    pub fn message(&self) -> (r: String)
        ensures
            r@ == match *self {
                HouseError::RoomNotFound(id) => "no such room: RoomId("@ + nat_text(id.0 as nat) + ")"@,
            },
    {
        match self {
            HouseError::RoomNotFound(id) => {
                let n = usize_to_string(id.0);
                join3("no such room: RoomId(", n.as_str(), ")")
            },
        }
    }
}

} // verus!
