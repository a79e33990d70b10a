use vstd::prelude::*;
use crate::combat::{dodge_succeeds, flee_drops_item, CombatOutcome};
use crate::game_state::{lemma_chase_keeps_ids, lemma_in_room_listed, lemma_process_all_facts, item_label, GameState};
use crate::event::EventQueue;
use crate::house::{Direction, House, RoomId};
use crate::item::{owned_by, ItemId, ItemRegistry, Owner};
use crate::monster::{has_monster, ids_unique, in_room, MonsterId, MonsterRegistry};
use crate::player::Player;
use crate::room_event::RoomEventRegistry;
use crate::text::{join2, join3, texts};
use vstd::string::StringExecFns;

verus! {

/// What the player wants to do.
#[derive(Debug, Clone, Copy, PartialEq, Eq, Structural)]
pub enum PlayerAction {
    Move(Direction),
    Search,
    PickUp,
    Drop(ItemId),
    EndTurn,
    EngageMonster,
    Attack,
    Flee,
}

/// What changed in the game after an action: messages for the player, and the monster the
/// player is fighting, if any.
#[derive(Debug)]
pub struct GameUpdate {
    pub messages: Vec<String>,
    pub pending_combat: Option<MonsterId>,
}

impl GameUpdate {
    pub fn new(messages: Vec<String>, pending_combat: Option<MonsterId>) -> (u: GameUpdate)
        ensures
            u == (GameUpdate { messages, pending_combat }),
    {
        GameUpdate { messages, pending_combat }
    }

    /// A single message and no combat.
    pub fn message(msg: &str) -> (u: GameUpdate)
        ensures
            texts(u.messages@) == seq![msg@],
            u.pending_combat is None,
    {
        let mut messages: Vec<String> = Vec::new();
        messages.push(String::from_str(msg));
        proof {
            assert(texts(messages@) =~= seq![msg@]);
        }
        GameUpdate { messages, pending_combat: None }
    }

    /// No messages and no combat.
    pub fn empty() -> (u: GameUpdate)
        ensures
            u.messages@ == Seq::<String>::empty(),
            u.pending_combat is None,
    {
        GameUpdate { messages: Vec::new(), pending_combat: None }
    }
}

/// Actions that could not be carried out.
#[derive(Debug, Clone, Copy, PartialEq, Eq, Structural)]
pub enum GameError {
    InvalidMove,
    NoMovesRemaining,
    NoItemsInRoom,
    NothingToPickUp,
    ItemNotFound,
    NoMonsterToFight,
    MonsterNotFound(MonsterId),
}

/// The text shown for an error.
pub open spec fn error_text(e: GameError) -> Seq<char> {
    match e {
        GameError::InvalidMove => "Can't go that way"@,
        GameError::NoMovesRemaining => "No moves left"@,
        GameError::NoItemsInRoom => "Nothing here to pick up"@,
        GameError::NothingToPickUp => "Nothing to pick up - search first with [s]"@,
        GameError::ItemNotFound => "Item not found"@,
        GameError::NoMonsterToFight => "There's nothing to fight here"@,
        GameError::MonsterNotFound(_) => "Monster not found"@,
    }
}

impl GameError {
    /// The text shown for this error.
    pub fn message(&self) -> (r: &'static str)
        ensures
            r@ == error_text(*self),
    {
        match self {
            GameError::InvalidMove => "Can't go that way",
            GameError::NoMovesRemaining => "No moves left",
            GameError::NoItemsInRoom => "Nothing here to pick up",
            GameError::NothingToPickUp => "Nothing to pick up - search first with [s]",
            GameError::ItemNotFound => "Item not found",
            GameError::NoMonsterToFight => "There's nothing to fight here",
            GameError::MonsterNotFound(_) => "Monster not found",
        }
    }
}

/// The monster the player fights, and who strikes first.
#[derive(Debug, Clone, Copy, PartialEq, Eq, Structural)]
pub struct CombatInfo {
    pub monster_id: MonsterId,
    pub monster_attacks_first: bool,
}

/// An update seen as its message texts and pending combat.
pub type UpdateView = Result<(Seq<Seq<char>>, Option<MonsterId>), GameError>;

pub open spec fn update_view(r: Result<GameUpdate, GameError>) -> UpdateView {
    match r {
        Ok(u) => Ok((texts(u.messages@), u.pending_combat)),
        Err(e) => Err(e),
    }
}

pub open spec fn fighting(c: Option<CombatInfo>) -> Option<MonsterId> {
    match c {
        Some(ci) => Some(ci.monster_id),
        None => None,
    }
}

/// Reacting to events after the player moved or the turn ended: notices are produced, and
/// when there are any, the monster set to ambush (if one was) starts a fight, attacking first.
pub open spec fn ambush_effect(s: GameState, c: Option<CombatInfo>, s2: GameState, c2: Option<CombatInfo>, notices: Seq<Seq<char>>) -> bool {
    exists|p: GameState| #[trigger] s.process_effect(&p, notices) && if notices.len() > 0 {
        &&& s2 == (GameState { pending_ambush: None, ..p })
        &&& c2 == match p.pending_ambush {
            Some(m) => Some(CombatInfo { monster_id: m, monster_attacks_first: true }),
            None => c,
        }
    } else {
        s2 == p && c2 == c
    }
}

/// Nothing but the player changed.
pub open spec fn only_player_changed(s: GameState, s2: GameState) -> bool {
    &&& s2.house == s.house
    &&& s2.registry == s.registry
    &&& s2.monsters@ == s.monsters@
    &&& s2.events@ == s.events@
    &&& s2.room_events@ == s.room_events@
    &&& s2.pending_ambush == s.pending_ambush
}

/// One action, with the dodge and the dropping decided: from game `s` in combat `c` to game
/// `s2` in combat `c2`, answering `r`.
pub open spec fn engine_step(s: GameState, c: Option<CombatInfo>, action: PlayerAction, dodged: bool, drops: bool,
    s2: GameState, c2: Option<CombatInfo>, r: UpdateView) -> bool {
    match action {
        PlayerAction::Move(dir) => {
            if s.player.moves_remaining != 0
                && crate::player::destination(s.house.rooms@[s.player.current_room.0], dir) is Some {
                exists|mid: GameState, notices: Seq<Seq<char>>| s.move_effect(&mid, dir, Ok(()))
                    && #[trigger] ambush_effect(mid, c, s2, c2, notices)
                    && r == Ok::<(Seq<Seq<char>>, Option<MonsterId>), GameError>((notices, fighting(c2)))
            } else {
                &&& s2 == s
                &&& c2 == c
                &&& r == Ok::<(Seq<Seq<char>>, Option<MonsterId>), GameError>((seq![error_text(GameError::InvalidMove)], None))
            }
        },
        PlayerAction::Search => {
            let here = owned_by(s.registry.ownership@, Owner::Room(s.player.current_room));
            &&& c2 == c
            &&& if here.is_empty() {
                &&& s2 == s
                &&& r == Ok::<(Seq<Seq<char>>, Option<MonsterId>), GameError>((seq![error_text(GameError::NoItemsInRoom)], None))
            } else {
                exists|i: ItemId| #[trigger] here.contains(i)
                    && s2.player == (crate::player::Player { found_item: Some(i), ..s.player })
                    && only_player_changed(s, s2)
                    && r == Ok::<(Seq<Seq<char>>, Option<MonsterId>), GameError>(
                        (seq!["You found: "@ + item_label(s.registry.items@, i)], None))
            }
        },
        PlayerAction::PickUp => {
            &&& c2 == c
            &&& match s.player.found_item {
                Some(id) => if s.registry.ownership@.get(id.0) == Some(Owner::Room(s.player.current_room)) {
                    &&& s.only_ownership_changed(&s2, s.registry.ownership@.insert(id.0, Owner::Player))
                    &&& r == Ok::<(Seq<Seq<char>>, Option<MonsterId>), GameError>((seq!["You picked it up."@], None))
                } else {
                    &&& s2 == s
                    &&& r == Ok::<(Seq<Seq<char>>, Option<MonsterId>), GameError>((seq![error_text(GameError::NothingToPickUp)], None))
                },
                None => {
                    &&& s2 == s
                    &&& r == Ok::<(Seq<Seq<char>>, Option<MonsterId>), GameError>((seq![error_text(GameError::NothingToPickUp)], None))
                },
            }
        },
        PlayerAction::Drop(id) => {
            &&& c2 == c
            &&& if s.registry.ownership@.get(id.0) == Some(Owner::Player) {
                &&& s.only_ownership_changed(&s2, s.registry.ownership@.insert(id.0, Owner::Room(s.player.current_room)))
                &&& r == Ok::<(Seq<Seq<char>>, Option<MonsterId>), GameError>((seq!["Dropped it"@], None))
            } else {
                &&& s2 == s
                &&& r == Ok::<(Seq<Seq<char>>, Option<MonsterId>), GameError>((seq![error_text(GameError::ItemNotFound)], None))
            }
        },
        PlayerAction::EndTurn => {
            exists|mid: GameState, notices: Seq<Seq<char>>| s.end_turn_effect(&mid)
                && #[trigger] ambush_effect(mid, c, s2, c2, notices)
                && r == Ok::<(Seq<Seq<char>>, Option<MonsterId>), GameError>(
                    (seq!["You end your turn."@] + notices, fighting(c2)))
        },
        PlayerAction::EngageMonster => {
            let here = in_room(s.monsters@, s.player.current_room);
            &&& s2 == s
            &&& if here.len() > 0 {
                &&& c2 == Some(CombatInfo { monster_id: here[0].id, monster_attacks_first: true })
                &&& r == Ok::<(Seq<Seq<char>>, Option<MonsterId>), GameError>(
                    (seq!["A "@ + here[0].name@ + " blocks your path"@], None))
            } else {
                &&& c2 == c
                &&& r == Err::<(Seq<Seq<char>>, Option<MonsterId>), GameError>(GameError::NoMonsterToFight)
            }
        },
        PlayerAction::Attack => match c {
            None => s2 == s && c2 == c
                && r == Err::<(Seq<Seq<char>>, Option<MonsterId>), GameError>(GameError::NoMonsterToFight),
            Some(ci) => exists|outcome: CombatOutcome, log: Seq<Seq<char>>|
                #[trigger] s.attack_effect(&s2, ci.monster_id, ci.monster_attacks_first, dodged, (outcome, log))
                && if outcome == CombatOutcome::Ongoing {
                    c2 == c && r == Ok::<(Seq<Seq<char>>, Option<MonsterId>), GameError>((log, Some(ci.monster_id)))
                } else {
                    c2 is None && r == Ok::<(Seq<Seq<char>>, Option<MonsterId>), GameError>((log, None))
                },
        },
        PlayerAction::Flee => match c {
            None => s2 == s && c2 == c
                && r == Err::<(Seq<Seq<char>>, Option<MonsterId>), GameError>(GameError::NoMonsterToFight),
            Some(ci) => exists|log: Seq<Seq<char>>| #[trigger] s.flee_effect(&s2, ci.monster_id, dodged, drops, log)
                && c2 is None && r == Ok::<(Seq<Seq<char>>, Option<MonsterId>), GameError>((log, None)),
        },
    }
}

/// The world and the fight in progress, as the turn engine works on them.
struct Session {
    state: GameState,
    combat_state: Option<CombatInfo>,
}

/// The game as the player drives it: the world, and the fight in progress if any.
pub struct GameEngine {
    session: Session,
}

impl GameEngine {
    pub closed spec fn state_view(&self) -> GameState {
        self.session.state
    }

    pub closed spec fn combat_view(&self) -> Option<CombatInfo> {
        self.session.combat_state
    }

    /// Every engine is well formed between actions.
    #[verifier::type_invariant]
    closed spec fn engine_inv(self) -> bool {
        self.session.wf()
    }

    /// No ambush is left pending between actions, no two monsters share an id, and the monster
    /// being fought exists.
    pub open spec fn wf(&self) -> bool {
        &&& self.state_view().pending_ambush is None
        &&& ids_unique(self.state_view().monsters@)
        &&& (self.combat_view() matches Some(ci) ==> has_monster(self.state_view().monsters@, ci.monster_id))
    }

    /// The preconditions of an action: moving needs a valid current room and a decrementable
    /// move counter; fighting and fleeing need the healths to stay in range.
    pub open spec fn can_apply(&self, action: PlayerAction) -> bool {
        match action {
            PlayerAction::Move(_) => self.state_view().can_move(),
            PlayerAction::Attack => self.combat_view() matches Some(ci)
                ==> self.state_view().can_attack(ci.monster_id, ci.monster_attacks_first),
            PlayerAction::Flee => self.combat_view() matches Some(ci)
                ==> self.state_view().can_attack(ci.monster_id, false),
            _ => true,
        }
    }

    /// A game engine on `state`, not in combat. The state has no ambush pending and no two
    /// monsters sharing an id, as any state that `GameState::new` builds from a registry of
    /// distinct monsters.
    pub fn new(state: GameState) -> (e: GameEngine)
        requires
            state.pending_ambush is None,
            ids_unique(state.monsters@),
        ensures
            e.state_view() == state,
            e.combat_view() is None,
            e.wf(),
    {
        GameEngine { session: Session { state, combat_state: None } }
    }

    /// The current game state.
    pub fn get_state(&self) -> (r: &GameState)
        ensures
            *r == self.state_view(),
    {
        &self.session.state
    }

    /// Whether a fight is in progress.
    pub fn in_combat(&self) -> (r: bool)
        ensures
            r == self.combat_view() is Some,
    {
        self.session.combat_state.is_some()
    }

    /// The fight in progress, if any.
    pub fn current_combat(&self) -> (r: Option<&CombatInfo>)
        ensures
            match r {
                Some(ci) => self.combat_view() == Some(*ci),
                None => self.combat_view() is None,
            },
    {
        match &self.session.combat_state {
            Some(ci) => Some(ci),
            None => None,
        }
    }

    /// The ids of the items the player carries, each once.
    pub fn get_player_inventory(&self) -> (r: Vec<ItemId>)
        ensures
            self.state_view().registry.lists_owned_by(Owner::Player, r@),
    {
        self.session.state.registry.items_owned_by(Owner::Player)
    }

    /// Applies an action with the dice already rolled: `dodged` is the player's dodge in an
    /// attack or a flight, `drops` whether an item is dropped while fleeing.
    pub fn apply_action_rolled(&mut self, action: PlayerAction, dodged: bool, drops: bool) -> (r: Result<GameUpdate, GameError>)
        requires
            old(self).can_apply(action),
        ensures
            final(self).wf(),
            engine_step(old(self).state_view(), old(self).combat_view(), action, dodged, drops,
                final(self).state_view(), final(self).combat_view(), update_view(r)),
    {
        proof {
            use_type_invariant(&*self);
        }
        let mut session = Session::placeholder();
        std::mem::swap(&mut session, &mut self.session);
        let r = session.apply_rolled(action, dodged, drops);
        std::mem::swap(&mut session, &mut self.session);
        proof {
            use_type_invariant(&*self);
        }
        r
    }

    /// Applies an action and returns what changed; attacks and flights roll the dice.
    pub fn apply_action(&mut self, action: PlayerAction) -> (r: Result<GameUpdate, GameError>)
        requires
            old(self).can_apply(action),
        ensures
            final(self).wf(),
            exists|dodged: bool, drops: bool| {
                &&& (dodged ==> old(self).state_view().player.speed >= 1)
                &&& (old(self).combat_view() is Some && (action == PlayerAction::Attack || action == PlayerAction::Flee)
                    && old(self).state_view().player.speed >= 12 ==> dodged)
                &&& engine_step(old(self).state_view(), old(self).combat_view(), action,
                    dodged, drops, final(self).state_view(), final(self).combat_view(), update_view(r))
            },
    {
        let fighting = self.session.combat_state.is_some();
        let dodged = match action {
            PlayerAction::Attack => fighting && dodge_succeeds(self.session.state.player.speed),
            PlayerAction::Flee => fighting && dodge_succeeds(self.session.state.player.speed),
            _ => false,
        };
        let drops = match action {
            PlayerAction::Flee => fighting && flee_drops_item(),
            _ => false,
        };
        self.apply_action_rolled(action, dodged, drops)
    }
}

impl Session {
    /// No ambush is left pending, no two monsters share an id, and the monster being fought exists.
    spec fn wf(&self) -> bool {
        &&& self.state.pending_ambush is None
        &&& ids_unique(self.state.monsters@)
        &&& (self.combat_state matches Some(ci) ==> has_monster(self.state.monsters@, ci.monster_id))
    }

    spec fn can_apply(&self, action: PlayerAction) -> bool {
        match action {
            PlayerAction::Move(_) => self.state.can_move(),
            PlayerAction::Attack => self.combat_state matches Some(ci)
                ==> self.state.can_attack(ci.monster_id, ci.monster_attacks_first),
            PlayerAction::Flee => self.combat_state matches Some(ci)
                ==> self.state.can_attack(ci.monster_id, false),
            _ => true,
        }
    }

    /// An empty world, held by an engine while its own is being worked on.
    fn placeholder() -> (s: Session)
        ensures
            s.wf(),
    {
        let state = GameState::new(House::new(), Player::new(String::new(), RoomId(0), 0, 0, 0), ItemRegistry::new(),
            MonsterRegistry::new(), EventQueue::new(), RoomEventRegistry::new(), None);
        Session { state, combat_state: None }
    }

    fn end_combat(&mut self)
        ensures
            final(self).state == old(self).state,
            final(self).combat_state is None,
    {
        self.combat_state = None;
    }

    /// Reacts to waiting events; notices start an ambush when a monster is set to ambush.
    fn detect_ambush(&mut self) -> (notices: Vec<String>)
        requires
            old(self).state.pending_ambush is None,
            ids_unique(old(self).state.monsters@),
            old(self).combat_state matches Some(ci) ==> has_monster(old(self).state.monsters@, ci.monster_id),
        ensures
            ambush_effect(old(self).state, old(self).combat_state, final(self).state, final(self).combat_state, texts(notices@)),
            final(self).wf(),
    {
        let ghost s0 = self.state;
        let notices = self.state.process_events();
        let ghost p = self.state;
        proof {
            lemma_process_all_facts(s0.events@, (s0.room_events@, s0.monsters@, s0.pending_ambush, Seq::empty()));
        }
        if notices.len() > 0 {
            let pending = self.state.pending_ambush;
            self.state.pending_ambush = None;
            match pending {
                Some(monster_id) => {
                    self.combat_state = Some(CombatInfo { monster_id, monster_attacks_first: true });
                },
                None => {},
            }
        }
        proof {
            assert(s0.process_effect(&p, texts(notices@)));
        }
        notices
    }

    fn handle_move(&mut self, dir: Direction) -> (r: Result<GameUpdate, GameError>)
        requires
            old(self).wf(),
            old(self).state.can_move(),
        ensures
            final(self).wf(),
            engine_step(old(self).state, old(self).combat_state, PlayerAction::Move(dir), false, false,
                final(self).state, final(self).combat_state, update_view(r)),
    {
        let ghost s0 = self.state;
        match self.state.move_player(dir) {
            Ok(()) => {
                let ghost mid = self.state;
                proof {
                    if mid.monsters@ != s0.monsters@ {
                        crate::laws::law_chase_keeps_ids(s0.house.rooms@, self.state.player.current_room,
                            s0.monsters@, mid.monsters@);
                    }
                    match self.combat_state {
                        Some(ci) => {
                            if mid.monsters@ != s0.monsters@ {
                                lemma_chase_keeps_ids(s0.house.rooms@, self.state.player.current_room, s0.monsters@,
                                    mid.monsters@, ci.monster_id);
                            }
                        },
                        None => {},
                    }
                }
                let ambush_notices = self.detect_ambush();
                let pending = match &self.combat_state {
                    Some(ci) => Some(ci.monster_id),
                    None => None,
                };
                proof {
                    assert(ambush_effect(mid, old(self).combat_state, self.state, self.combat_state, texts(ambush_notices@)));
                }
                Ok(GameUpdate::new(ambush_notices, pending))
            },
            Err(_) => {
                Ok(GameUpdate::message(GameError::InvalidMove.message()))
            },
        }
    }

    fn handle_search(&mut self) -> (r: Result<GameUpdate, GameError>)
        requires
            old(self).wf(),
        ensures
            final(self).wf(),
            engine_step(old(self).state, old(self).combat_state, PlayerAction::Search, false, false,
                final(self).state, final(self).combat_state, update_view(r)),
    {
        match self.state.player.search_room(&self.state.registry) {
            Ok(()) => {
                let item_id = match self.state.player.found_item {
                    Some(i) => i,
                    None => {
                        return Ok(GameUpdate::empty());
                    },
                };
                let name = match self.state.registry.name_of(item_id) {
                    Some(n) => n,
                    None => "something",
                };
                let text = join2("You found: ", name);
                Ok(GameUpdate::message(text.as_str()))
            },
            Err(_) => Ok(GameUpdate::message(GameError::NoItemsInRoom.message())),
        }
    }

    fn handle_pickup(&mut self) -> (r: Result<GameUpdate, GameError>)
        requires
            old(self).wf(),
        ensures
            final(self).wf(),
            engine_step(old(self).state, old(self).combat_state, PlayerAction::PickUp, false, false,
                final(self).state, final(self).combat_state, update_view(r)),
    {
        match self.state.player.found_item {
            Some(item_id) => match self.state.pick_up_item(item_id) {
                Ok(()) => Ok(GameUpdate::message("You picked it up.")),
                Err(_) => Ok(GameUpdate::message(GameError::NothingToPickUp.message())),
            },
            None => {
                let mut messages: Vec<String> = Vec::new();
                messages.push(String::from_str(GameError::NothingToPickUp.message()));
                proof {
                    assert(texts(messages@) =~= seq![error_text(GameError::NothingToPickUp)]);
                }
                Ok(GameUpdate::new(messages, None))
            },
        }
    }

    fn handle_drop(&mut self, item_id: ItemId) -> (r: Result<GameUpdate, GameError>)
        requires
            old(self).wf(),
        ensures
            final(self).wf(),
            engine_step(old(self).state, old(self).combat_state, PlayerAction::Drop(item_id), false, false,
                final(self).state, final(self).combat_state, update_view(r)),
    {
        match self.state.drop_item(item_id) {
            Ok(()) => Ok(GameUpdate::message("Dropped it")),
            Err(_) => Ok(GameUpdate::message(GameError::ItemNotFound.message())),
        }
    }

    fn handle_end_turn(&mut self) -> (r: Result<GameUpdate, GameError>)
        requires
            old(self).wf(),
        ensures
            final(self).wf(),
            engine_step(old(self).state, old(self).combat_state, PlayerAction::EndTurn, false, false,
                final(self).state, final(self).combat_state, update_view(r)),
    {
        let ghost s0 = self.state;
        self.state.end_turn();
        let ghost mid = self.state;
        proof {
            crate::laws::law_chase_keeps_ids(s0.house.rooms@, s0.player.current_room, s0.monsters@, mid.monsters@);
            match self.combat_state {
                Some(ci) => {
                    lemma_chase_keeps_ids(s0.house.rooms@, s0.player.current_room, s0.monsters@, mid.monsters@, ci.monster_id);
                },
                None => {},
            }
        }
        let mut notices: Vec<String> = Vec::new();
        notices.push(String::from_str("You end your turn."));
        let ambush_notices = self.detect_ambush();
        let ghost first = notices@;
        let mut k: usize = 0;
        while k < ambush_notices.len()
            invariant
                k <= ambush_notices@.len(),
                texts(notices@) == seq!["You end your turn."@] + texts(ambush_notices@).take(k as int),
            decreases ambush_notices@.len() - k,
        {
            let ghost before = notices@;
            notices.push(ambush_notices[k].clone());
            proof {
                assert(texts(ambush_notices@).take(k + 1) =~= texts(ambush_notices@).take(k as int).push(ambush_notices@[k as int]@));
                assert(texts(notices@) =~= texts(before).push(ambush_notices@[k as int]@));
            }
            k = k + 1;
        }
        proof {
            assert(texts(ambush_notices@).take(ambush_notices@.len() as int) =~= texts(ambush_notices@));
        }
        let pending = match &self.combat_state {
            Some(ci) => Some(ci.monster_id),
            None => None,
        };
        proof {
            assert(ambush_effect(mid, old(self).combat_state, self.state, self.combat_state, texts(ambush_notices@)));
        }
        Ok(GameUpdate::new(notices, pending))
    }

    fn handle_engage_monster(&mut self) -> (r: Result<GameUpdate, GameError>)
        requires
            old(self).wf(),
        ensures
            final(self).wf(),
            engine_step(old(self).state, old(self).combat_state, PlayerAction::EngageMonster, false, false,
                final(self).state, final(self).combat_state, update_view(r)),
    {
        let monsters_here = self.state.monsters.monsters_in(self.state.player.current_room);
        if monsters_here.len() > 0 {
            let monster = monsters_here[0];
            let monster_id = monster.id;
            proof {
                assert(monsters_here@.map_values(|m: &crate::monster::Monster| *m)[0] == *monsters_here@[0]);
                lemma_in_room_listed(self.state.monsters@, self.state.player.current_room);
            }
            let text = join3("A ", monster.name.as_str(), " blocks your path");
            self.combat_state = Some(CombatInfo { monster_id, monster_attacks_first: true });
            Ok(GameUpdate::message(text.as_str()))
        } else {
            Err(GameError::NoMonsterToFight)
        }
    }

    fn handle_attack_with(&mut self, dodged: bool) -> (r: Result<GameUpdate, GameError>)
        requires
            old(self).wf(),
            old(self).can_apply(PlayerAction::Attack),
        ensures
            final(self).wf(),
            engine_step(old(self).state, old(self).combat_state, PlayerAction::Attack, dodged, false,
                final(self).state, final(self).combat_state, update_view(r)),
    {
        let combat = match &self.combat_state {
            Some(ci) => *ci,
            None => {
                return Err(GameError::NoMonsterToFight);
            },
        };
        let monster_id = combat.monster_id;
        let monster_attacks_first = combat.monster_attacks_first;
        let ghost s0 = self.state;
        let (outcome, log) = self.state.attack_with(monster_id, monster_attacks_first, dodged);
        proof {
            crate::game_state::lemma_attack_keeps_ids_unique(s0.monsters@, monster_id, s0.player.strength,
                monster_attacks_first);
        }
        match outcome {
            CombatOutcome::PlayerWon => {
                self.end_combat();
                Ok(GameUpdate::new(log, None))
            },
            CombatOutcome::PlayerDefeated => {
                self.end_combat();
                Ok(GameUpdate::new(log, None))
            },
            CombatOutcome::Ongoing => {
                proof {
                    let s = old(self).state.monsters@;
                    crate::monster::lemma_first_exists(s, monster_id);
                    let i = crate::monster::position_of(s, monster_id);
                    assert(self.state.monsters@[i].id == monster_id);
                }
                Ok(GameUpdate::new(log, Some(monster_id)))
            },
            CombatOutcome::PlayerFled => {
                self.end_combat();
                Ok(GameUpdate::new(log, None))
            },
        }
    }

    fn handle_flee_with(&mut self, dodged: bool, drops: bool) -> (r: Result<GameUpdate, GameError>)
        requires
            old(self).wf(),
            old(self).can_apply(PlayerAction::Flee),
        ensures
            final(self).wf(),
            engine_step(old(self).state, old(self).combat_state, PlayerAction::Flee, dodged, drops,
                final(self).state, final(self).combat_state, update_view(r)),
    {
        let combat = match &self.combat_state {
            Some(ci) => *ci,
            None => {
                return Err(GameError::NoMonsterToFight);
            },
        };
        let monster_id = combat.monster_id;
        let log = self.state.flee_with(monster_id, dodged, drops);
        self.end_combat();
        Ok(GameUpdate::new(log, None))
    }

    /// Applies an action with the dice already rolled.
    fn apply_rolled(&mut self, action: PlayerAction, dodged: bool, drops: bool) -> (r: Result<GameUpdate, GameError>)
        requires
            old(self).wf(),
            old(self).can_apply(action),
        ensures
            final(self).wf(),
            engine_step(old(self).state, old(self).combat_state, action, dodged, drops,
                final(self).state, final(self).combat_state, update_view(r)),
    {
        match action {
            PlayerAction::Move(dir) => self.handle_move(dir),
            PlayerAction::Search => self.handle_search(),
            PlayerAction::PickUp => self.handle_pickup(),
            PlayerAction::Drop(item_id) => self.handle_drop(item_id),
            PlayerAction::EndTurn => self.handle_end_turn(),
            PlayerAction::EngageMonster => self.handle_engage_monster(),
            PlayerAction::Attack => self.handle_attack_with(dodged),
            PlayerAction::Flee => self.handle_flee_with(dodged, drops),
        }
    }
}

} // verus!
