use vstd::prelude::*;
use std::collections::HashMap;
use vstd::std_specs::iter::IteratorSpec;
use crate::house::RoomId;
use crate::text::{join3, nat_text, usize_to_string};

verus! {

broadcast use vstd::std_specs::hash::group_hash_axioms;

/// A thing that can be found, carried and dropped.
#[derive(Debug, Clone)]
pub struct Item {
    pub id: ItemId,
    pub name: String,
    pub description: String,
}

/// Identifier of an item.
#[derive(Debug, Clone, Copy, PartialEq, Eq, Structural, Hash)]
pub struct ItemId(pub usize);

/// Failures of item handling.
#[derive(Debug, Clone, Copy, PartialEq, Eq, Structural)]
pub enum ItemError {
    ItemNotFound(ItemId),
    NoItemsInRoom(RoomId),
}

/// Who holds an item.
#[derive(Debug, Clone, Copy, PartialEq, Eq, Structural, Hash)]
pub enum Owner {
    Room(RoomId),
    Player,
    Nowhere,
}

/// The items of the game and who holds each, keyed by the number of the item's id.
pub struct ItemRegistry {
    pub items: HashMap<usize, Item>,
    pub ownership: HashMap<usize, Owner>,
}

/// The ids of the items that `ownership` gives to `owner`.
pub open spec fn owned_by(ownership: Map<usize, Owner>, owner: Owner) -> Set<ItemId> {
    Set::new(|i: ItemId| ownership.contains_key(i.0) && ownership[i.0] == owner)
}

impl ItemRegistry {
    /// The same set of item ids as `owned_by`, each exactly once, in no fixed order.
    pub open spec fn lists_owned_by(&self, owner: Owner, r: Seq<ItemId>) -> bool {
        &&& r.to_set() == owned_by(self.ownership@, owner)
        &&& r.no_duplicates()
    }

    /// An empty registry.
    pub fn new() -> (r: ItemRegistry)
        ensures
            r.items@ == Map::<usize, Item>::empty(),
            r.ownership@ == Map::<usize, Owner>::empty(),
    {
        ItemRegistry { items: HashMap::new(), ownership: HashMap::new() }
    }

    /// Adds (or replaces) the item `id` with the given name and description; ownership is untouched.
    pub fn add_item(&mut self, id: ItemId, name: &str, description: &str)
        ensures
            final(self).items@ == old(self).items@.insert(id.0, final(self).items@[id.0]),
            final(self).items@[id.0].id == id,
            final(self).items@[id.0].name@ == name@,
            final(self).items@[id.0].description@ == description@,
            final(self).ownership@ == old(self).ownership@,
    {
        self.items.insert(id.0, Item { id, name: name.to_string(), description: description.to_string() });
    }

    /// Gives the item to `owner`, whoever held it before.
    pub fn assign(&mut self, item_id: ItemId, owner: Owner)
        ensures
            final(self).ownership@ == old(self).ownership@.insert(item_id.0, owner),
            final(self).items@ == old(self).items@,
    {
        self.ownership.insert(item_id.0, owner);
    }

    /// Who holds the item, if anyone was ever assigned to it.
    pub fn owner_of(&self, item_id: ItemId) -> (r: Option<Owner>)
        ensures
            r == self.ownership@.get(item_id.0),
    {
        match self.ownership.get(&item_id.0) {
            Some(o) => Some(*o),
            None => None,
        }
    }

    /// The ids of all items held by `owner`, each once.
    pub fn items_owned_by(&self, owner: Owner) -> (r: Vec<ItemId>)
        ensures
            self.lists_owned_by(owner, r@),
    {
        let mut r: Vec<ItemId> = Vec::new();
        let ghost m = self.ownership@;
        let ghost mut src: Seq<int> = Seq::empty();
        for entry in it: self.ownership.iter()
            invariant
                m == self.ownership@,
                forall|k: usize| #[trigger] m.contains_key(k) ==> it.seq().contains((&k, &m[k])),
                src.len() == r@.len(),
                forall|i: int| 0 <= i < r@.len() ==> m.contains_key(#[trigger] r@[i].0) && m[r@[i].0] == owner,
                forall|i: int| 0 <= i < src.len() ==> 0 <= #[trigger] src[i] < it.index() && r@[i].0 == *it.seq()[src[i]].0,
                forall|j: int| 0 <= j < it.index() && *it.seq()[j].1 == owner ==> r@.contains(ItemId(*it.seq()[j].0)),
                r@.no_duplicates(),
                it.seq().no_duplicates(),
        {
            let ghost idx = it.index();
            let (k, o) = entry;
            if *o == owner {
                proof {
                    assert forall|i: int| 0 <= i < r@.len() implies r@[i] != ItemId(*k) by {
                        let a = src[i];
                        assert(it.seq()[a] != it.seq()[idx]);
                    }
                }
                let ghost old_r = r@;
                r.push(ItemId(*k));
                proof {
                    src = src.push(idx);
                    assert(r@[r@.len() - 1] == ItemId(*k));
                    assert forall|x: ItemId| old_r.contains(x) implies r@.contains(x) by {
                        let w = choose|w: int| 0 <= w < old_r.len() && old_r[w] == x;
                        assert(r@[w] == x);
                    }
                }
            }
        }
        proof {
            assert forall|x: ItemId| r@.to_set().contains(x) <==> owned_by(m, owner).contains(x) by {
                if r@.to_set().contains(x) {
                    let w = choose|w: int| 0 <= w < r@.len() && r@[w] == x;
                    assert(m.contains_key(r@[w].0));
                }
                if owned_by(m, owner).contains(x) {
                    assert(m.contains_key(x.0));
                }
            }
            assert(r@.to_set() =~= owned_by(m, owner));
        }
        r
    }

    /// The name of the item, if it is known.
    pub fn name_of(&self, item_id: ItemId) -> (r: Option<&str>)
        ensures
            r is Some <==> self.items@.contains_key(item_id.0),
            r matches Some(s) ==> s@ == self.items@[item_id.0].name@,
    {
        match self.items.get(&item_id.0) {
            Some(item) => Some(item.name.as_str()),
            None => None,
        }
    }
}

impl ItemError {
    /// The text of the error.
    pub fn message(&self) -> (r: String)
        ensures
            r@ == match *self {
                ItemError::ItemNotFound(id) => "no such item: ItemId("@ + nat_text(id.0 as nat) + ")"@,
                ItemError::NoItemsInRoom(room) => "no items found in RoomId("@ + nat_text(room.0 as nat) + ")"@,
            },
    {
        match self {
            ItemError::ItemNotFound(id) => {
                let n = usize_to_string(id.0);
                join3("no such item: ItemId(", n.as_str(), ")")
            },
            ItemError::NoItemsInRoom(room) => {
                let n = usize_to_string(room.0);
                join3("no items found in RoomId(", n.as_str(), ")")
            },
        }
    }
}

} // verus!
