use vstd::prelude::*;
use crate::house::{connected, connected_two_way, grid_key, Direction, Floor, House, Room, RoomId, RoomType};
use crate::item::{ItemId, ItemRegistry, Owner};
use crate::monster::{MonsterId, MonsterRegistry, MonsterTemplate};
use crate::player::{Player, PlayerConfig};
use crate::room_event::{RoomEventKind, RoomEventRegistry};
use vstd::string::StringExecFns;

verus! {

broadcast use vstd::std_specs::hash::group_hash_axioms;

/// The starting items: a backpack carried by the player, a room key in the library (room 3)
/// and a crowbar in the master bedroom (room 4).
pub fn new_registry() -> (items: ItemRegistry)
    ensures
        items.items@.dom() == set![0usize, 1usize, 2usize],
        items.items@[0].id == ItemId(0) && items.items@[0].name@ == "Backpack"@
            && items.items@[0].description@ == "A basic bag for holding your inventory"@,
        items.items@[1].id == ItemId(1) && items.items@[1].name@ == "Room Key"@
            && items.items@[1].description@ == "A small key for opening rooms"@,
        items.items@[2].id == ItemId(2) && items.items@[2].name@ == "Crowbar"@
            && items.items@[2].description@ == "A large piece of metal build for prying... or clobbering."@,
        items.ownership@ == map![0usize => Owner::Player, 1usize => Owner::Room(RoomId(3)), 2usize => Owner::Room(RoomId(4))],
{
    let mut items = ItemRegistry::new();
    items.add_item(ItemId(1), "Room Key", "A small key for opening rooms");
    items.add_item(ItemId(2), "Crowbar", "A large piece of metal build for prying... or clobbering.");
    items.add_item(ItemId(0), "Backpack", "A basic bag for holding your inventory");
    items.assign(ItemId(0), Owner::Player);
    items.assign(ItemId(1), Owner::Room(RoomId(3)));
    items.assign(ItemId(2), Owner::Room(RoomId(4)));
    proof {
        assert(items.items@.dom() =~= set![0usize, 1usize, 2usize]);
        assert(items.ownership@ =~= map![0usize => Owner::Player, 1usize => Owner::Room(RoomId(3)), 2usize => Owner::Room(RoomId(4))]);
    }
    items
}

/// The exits of the starting house: which room the exit of room `k` in direction `d` leads to.
pub open spec fn starting_exit(k: usize, d: Direction) -> Option<usize> {
    match (k, d) {
        (0, Direction::East) => Some(1),
        (1, Direction::West) => Some(0),
        (1, Direction::East) => Some(2),
        (1, Direction::North) => Some(5),
        (2, Direction::West) => Some(1),
        (5, Direction::South) => Some(1),
        (5, Direction::North) => Some(7),
        (7, Direction::South) => Some(5),
        (7, Direction::East) => Some(3),
        (7, Direction::West) => Some(4),
        (3, Direction::West) => Some(7),
        (3, Direction::South) => Some(6),
        (6, Direction::South) => Some(2),
        (4, Direction::East) => Some(7),
        (4, Direction::South) => Some(8),
        (8, Direction::North) => Some(4),
        _ => None,
    }
}

/// The names of the rooms of the starting house.
pub open spec fn starting_name(k: usize) -> Seq<char> {
    if k == 0 { "Entrance"@ }
    else if k == 1 { "Hallway"@ }
    else if k == 2 { "Kitchen"@ }
    else if k == 3 { "Library"@ }
    else if k == 4 { "Master Bedroom"@ }
    else if k == 5 { "Staircase"@ }
    else if k == 6 { "Basement"@ }
    else if k == 7 { "2nd floor landing"@ }
    else { "Balcony"@ }
}

/// Where room `k` of the starting house stands on the first floor.
pub open spec fn starting_pos(k: usize) -> (i32, i32) {
    if k == 0 { (0i32, 0i32) }
    else if k == 1 { (1i32, 0i32) }
    else if k == 2 { (2i32, 0i32) }
    else if k == 3 { (2i32, -2i32) }
    else if k == 4 { (0i32, -2i32) }
    else if k == 5 { (1i32, -1i32) }
    else if k == 6 { (2i32, -1i32) }
    else if k == 7 { (1i32, -2i32) }
    else { (0i32, -1i32) }
}

/// The shape of room `k` of the starting house.
pub open spec fn starting_type(k: usize) -> RoomType {
    if k == 1 || k == 7 { RoomType::Split }
    else if k == 3 || k == 4 { RoomType::Corner }
    else if k == 5 { RoomType::Passage }
    else { RoomType::DeadEnd }
}

/// The grid of the starting house: each room's place on the first floor, keyed as `grid_key` says.
pub open spec fn starting_grid() -> Map<u128, RoomId> {
    map![
        grid_key(0i32, 0i32, Floor::FirstFloor) => RoomId(0),
        grid_key(1i32, 0i32, Floor::FirstFloor) => RoomId(1),
        grid_key(2i32, 0i32, Floor::FirstFloor) => RoomId(2),
        grid_key(2i32, -2i32, Floor::FirstFloor) => RoomId(3),
        grid_key(0i32, -2i32, Floor::FirstFloor) => RoomId(4),
        grid_key(1i32, -1i32, Floor::FirstFloor) => RoomId(5),
        grid_key(2i32, -1i32, Floor::FirstFloor) => RoomId(6),
        grid_key(1i32, -2i32, Floor::FirstFloor) => RoomId(7),
        grid_key(0i32, -1i32, Floor::FirstFloor) => RoomId(8)
    ]
}

/// An open exit into room `b`, when there is one.
pub open spec fn open_exit_to(b: Option<usize>) -> Option<crate::exit::Exit> {
    match b {
        Some(b) => Some(crate::exit::Exit {
            target: crate::exit::ExitTarget::Resolved(RoomId(b)),
            traversability: crate::exit::Traversability::Open,
            visibility: crate::exit::Visibility::Visible,
        }),
        None => None,
    }
}

/// The exits of room `k` of the starting house.
pub open spec fn starting_exits(k: usize) -> crate::house::ExitMap {
    crate::house::ExitMap {
        north: open_exit_to(starting_exit(k, Direction::North)),
        south: open_exit_to(starting_exit(k, Direction::South)),
        east: open_exit_to(starting_exit(k, Direction::East)),
        west: open_exit_to(starting_exit(k, Direction::West)),
    }
}

/// The exit of `r` in direction `d` is an open exit into `expected`, or there is none.
pub open spec fn exit_is(r: Room, d: Direction, expected: Option<usize>) -> bool {
    match expected {
        Some(b) => r.exits.at(d) == Some(crate::exit::Exit {
            target: crate::exit::ExitTarget::Resolved(RoomId(b)),
            traversability: crate::exit::Traversability::Open,
            visibility: crate::exit::Visibility::Visible,
        }),
        None => r.exits.at(d) is None,
    }
}

/// The starting house: nine rooms on the first floor, linked as `starting_exit` says (the
/// library leads down into the basement and the basement into the kitchen, one way).
pub fn build_house() -> (house: House)
    ensures
        house.rooms@.dom() == Set::new(|k: usize| k < 9),
        forall|k: usize| #![trigger house.rooms@[k]] k < 9 ==> {
            &&& house.rooms@[k].id == RoomId(k)
            &&& house.rooms@[k].content.is_fresh(starting_name(k), Seq::<char>::empty())
            &&& house.rooms@[k].floor == Floor::FirstFloor
            &&& house.rooms@[k].pos == starting_pos(k)
            &&& house.rooms@[k].room_type == starting_type(k)
            &&& forall|d: Direction| #[trigger] exit_is(house.rooms@[k], d, starting_exit(k, d))
        },
        house.position_grid@ == starting_grid(),
        house.entrance_id == RoomId(0),
        house.frontier@ == Seq::<crate::house::FrontierExit>::empty(),
        house.room_deck@ == Seq::<crate::house::RoomTemplate>::empty(),
        house.generation_seed == 0,
        house.next_room_id == 0,
{
    let mut house = House::new();
    house.add_room(RoomId(0), "Entrance", Floor::FirstFloor, (0, 0), RoomType::DeadEnd);
    house.add_room(RoomId(1), "Hallway", Floor::FirstFloor, (1, 0), RoomType::Split);
    house.add_room(RoomId(2), "Kitchen", Floor::FirstFloor, (2, 0), RoomType::DeadEnd);
    house.add_room(RoomId(3), "Library", Floor::FirstFloor, (2, -2), RoomType::Corner);
    house.add_room(RoomId(4), "Master Bedroom", Floor::FirstFloor, (0, -2), RoomType::Corner);
    house.add_room(RoomId(5), "Staircase", Floor::FirstFloor, (1, -1), RoomType::Passage);
    house.add_room(RoomId(6), "Basement", Floor::FirstFloor, (2, -1), RoomType::DeadEnd);
    house.add_room(RoomId(7), "2nd floor landing", Floor::FirstFloor, (1, -2), RoomType::Split);
    house.add_room(RoomId(8), "Balcony", Floor::FirstFloor, (0, -1), RoomType::DeadEnd);
    let ghost fresh = house.rooms@;
    proof {
        assert(house.position_grid@ =~= starting_grid());
        assert(fresh.dom() =~= Set::new(|k: usize| k < 9));
        assert forall|k: usize| #![trigger fresh[k]] k < 9 implies fresh[k].exits == (crate::house::ExitMap {
            north: None, south: None, east: None, west: None }) by {
            assert(fresh[k].exits.at(Direction::North) is None);
            assert(fresh[k].exits.at(Direction::South) is None);
            assert(fresh[k].exits.at(Direction::East) is None);
            assert(fresh[k].exits.at(Direction::West) is None);
        }
    }
    let ghost before = house.rooms@;
    let _ = house.connect_two_way(RoomId(0), Direction::East, RoomId(1));
    proof {
        assert(before.contains_key(0usize) && before.contains_key(1usize));
        assert(house.rooms@ == connected_two_way(before, RoomId(0), Direction::East, RoomId(1)));
        assert(house.rooms@.dom() =~= fresh.dom());
    }
    let ghost before = house.rooms@;
    let _ = house.connect_two_way(RoomId(1), Direction::East, RoomId(2));
    proof {
        assert(before.contains_key(1usize) && before.contains_key(2usize));
        assert(house.rooms@ == connected_two_way(before, RoomId(1), Direction::East, RoomId(2)));
        assert(house.rooms@.dom() =~= fresh.dom());
    }
    let ghost before = house.rooms@;
    let _ = house.connect_two_way(RoomId(1), Direction::North, RoomId(5));
    proof {
        assert(before.contains_key(1usize) && before.contains_key(5usize));
        assert(house.rooms@ == connected_two_way(before, RoomId(1), Direction::North, RoomId(5)));
        assert(house.rooms@.dom() =~= fresh.dom());
    }
    let ghost before = house.rooms@;
    let _ = house.connect_two_way(RoomId(5), Direction::North, RoomId(7));
    proof {
        assert(before.contains_key(5usize) && before.contains_key(7usize));
        assert(house.rooms@ == connected_two_way(before, RoomId(5), Direction::North, RoomId(7)));
        assert(house.rooms@.dom() =~= fresh.dom());
    }
    let ghost before = house.rooms@;
    let _ = house.connect_two_way(RoomId(7), Direction::East, RoomId(3));
    proof {
        assert(before.contains_key(7usize) && before.contains_key(3usize));
        assert(house.rooms@ == connected_two_way(before, RoomId(7), Direction::East, RoomId(3)));
        assert(house.rooms@.dom() =~= fresh.dom());
    }
    let ghost before = house.rooms@;
    let _ = house.connect(RoomId(3), Direction::South, RoomId(6));
    proof {
        assert(before.contains_key(3usize) && before.contains_key(6usize));
        assert(house.rooms@ == connected(before, RoomId(3), Direction::South, RoomId(6)));
        assert(house.rooms@.dom() =~= fresh.dom());
    }
    let ghost before = house.rooms@;
    let _ = house.connect(RoomId(6), Direction::South, RoomId(2));
    proof {
        assert(before.contains_key(6usize) && before.contains_key(2usize));
        assert(house.rooms@ == connected(before, RoomId(6), Direction::South, RoomId(2)));
        assert(house.rooms@.dom() =~= fresh.dom());
    }
    let ghost before = house.rooms@;
    let _ = house.connect_two_way(RoomId(7), Direction::West, RoomId(4));
    proof {
        assert(before.contains_key(7usize) && before.contains_key(4usize));
        assert(house.rooms@ == connected_two_way(before, RoomId(7), Direction::West, RoomId(4)));
        assert(house.rooms@.dom() =~= fresh.dom());
    }
    let ghost before = house.rooms@;
    let _ = house.connect_two_way(RoomId(4), Direction::South, RoomId(8));
    proof {
        assert(before.contains_key(4usize) && before.contains_key(8usize));
        assert(house.rooms@ == connected_two_way(before, RoomId(4), Direction::South, RoomId(8)));
        assert(house.rooms@.dom() =~= fresh.dom());
    }
    proof {
        assert(house.rooms@[0].exits == starting_exits(0));
        assert(house.rooms@[1].exits == starting_exits(1));
        assert(house.rooms@[2].exits == starting_exits(2));
        assert(house.rooms@[3].exits == starting_exits(3));
        assert(house.rooms@[4].exits == starting_exits(4));
        assert(house.rooms@[5].exits == starting_exits(5));
        assert(house.rooms@[6].exits == starting_exits(6));
        assert(house.rooms@[7].exits == starting_exits(7));
        assert(house.rooms@[8].exits == starting_exits(8));
        assert(house.rooms@.dom() =~= Set::new(|k: usize| k < 9));
        assert forall|k: usize| #![trigger house.rooms@[k]] k < 9 implies {
            &&& house.rooms@[k].id == RoomId(k)
            &&& house.rooms@[k].content.is_fresh(starting_name(k), Seq::<char>::empty())
            &&& house.rooms@[k].floor == Floor::FirstFloor
            &&& house.rooms@[k].pos == starting_pos(k)
            &&& house.rooms@[k].room_type == starting_type(k)
            &&& forall|d: Direction| #[trigger] exit_is(house.rooms@[k], d, starting_exit(k, d))
        } by {
            assert(fresh.contains_key(k));
            assert(house.rooms@[k].exits == starting_exits(k));
        }
    }
    house
}

/// The player described by `config`, at the entrance.
pub fn create_player(config: PlayerConfig) -> (p: Player)
    ensures
        p == (Player {
            name: config.name,
            current_room: RoomId(0),
            found_item: None,
            health: config.health,
            strength: config.strength,
            speed: config.speed,
            moves_remaining: config.speed,
            max_health: config.health,
        }),
{
    Player::new(config.name, RoomId(0), config.health, config.strength, config.speed)
}

/// The starting monsters: a zombie (15 health, strength 2, speed 1), off the board until it spawns.
pub fn new_monsters() -> (monsters: MonsterRegistry)
    ensures
        monsters@.len() == 1,
        monsters@[0].id == MonsterId(0),
        monsters@[0].name@ == "Zombie"@,
        monsters@[0].current_room is None,
        monsters@[0].health == 15,
        monsters@[0].max_health == 15,
        monsters@[0].strength == 2,
        monsters@[0].speed == 1,
{
    let mut monsters = MonsterRegistry::new();
    let zombie = MonsterTemplate { name: String::from_str("Zombie"), health: 15, strength: 2, speed: 1 };
    monsters.add_monster_instance(zombie.spawn(MonsterId(0), None));
    monsters
}

/// The starting room events: entering the basement (room 6) spawns the zombie there.
pub fn basement_spawn() -> (events: RoomEventRegistry)
    ensures
        events@ == map![6usize => RoomEventKind::SpawnMonster(MonsterId(0))],
{
    let mut room_event = RoomEventRegistry::new();
    room_event.add_event(RoomId(6), RoomEventKind::SpawnMonster(MonsterId(0)));
    proof {
        assert(room_event@ =~= map![6usize => RoomEventKind::SpawnMonster(MonsterId(0))]);
    }
    room_event
}

} // verus!
