//! Views of entities: an index together with the game it is read from.

use vstd::prelude::*;

use crate::database::{Database, IntoProxy, Lookup, Update};
use crate::entity::{
    action_description, action_name, ActionEntity, CharacterEntity, DialogueVariantEntity,
    ResponseEntity, RoomVariantEntity,
};
use crate::exits::{exit_at, exit_entries, exits_len};
use crate::ids::{ActionId, CharacterId, DialogueId, ResponseId, RoomId};
use crate::names::Identifier;

verus! {

// ------------------------------------------------------------------ rooms

/// A room as it currently appears in a game.
pub struct Room<'a, DB: Lookup> {
    id: RoomId,
    db: &'a DB,
}

/// A way out of a room: its direction and the room it leads to.
pub struct Exit<'a, T: Lookup> {
    direction: Identifier,
    room: Room<'a, T>,
}

impl<'a, T: Lookup> Exit<'a, T> {
    pub closed spec fn direction_of(&self) -> Identifier {
        self.direction
    }

    pub closed spec fn room_of(&self) -> Room<'a, T> {
        self.room
    }

    pub fn direction(&self) -> (r: &Identifier)
        ensures
            *r == self.direction_of(),
    {
        &self.direction
    }

    pub fn room(&self) -> (r: &Room<'a, T>)
        ensures
            *r == self.room_of(),
    {
        &self.room
    }
}

impl<'a, DB: Lookup> Room<'a, DB> {
    pub closed spec fn id_of(&self) -> RoomId {
        self.id
    }

    pub closed spec fn db_of(&self) -> DB {
        *self.db
    }

    /// The view names a room of a consistent game.
    pub open spec fn valid(&self) -> bool {
        self.db_of().lookup_inv() && self.id_of().0 < self.db_of().room_count()
    }

    /// The room as it currently appears.
    pub open spec fn entity(&self) -> RoomVariantEntity {
        self.db_of().room_at(self.id_of())
    }

    pub fn new(id: RoomId, db: &'a DB) -> (r: Self)
        ensures
            r.id_of() == id,
            r.db_of() == *db,
    {
        Room { id, db }
    }

    pub fn into_id(self) -> (r: RoomId)
        ensures
            r == self.id_of(),
    {
        self.id
    }

    pub fn id(&self) -> (r: RoomId)
        ensures
            r == self.id_of(),
    {
        self.id
    }

    fn room(&self) -> (r: &'a RoomVariantEntity)
        requires
            self.valid(),
        ensures
            *r == self.entity(),
            forall|k: int| 0 <= k < r.characters@.len() ==> #[trigger] r.characters@[k].0 < self.db_of().character_count(),
            forall|k: int| 0 <= k < r.actions@.len() ==> #[trigger] r.actions@[k].0 < self.db_of().action_count(),
            forall|k: int|
                0 <= k < exit_entries(r.exits).len() ==> #[trigger] exit_entries(r.exits)[k].1
                    < self.db_of().room_count(),
    {
        self.db.lookup_room(self.id)
    }

    /// A room without exits ends the game when the player enters it.
    pub fn is_trap(&self) -> (b: bool)
        requires
            self.valid(),
        ensures
            b == (exit_entries(self.entity().exits).len() == 0),
    {
        exits_len(&self.room().exits) == 0
    }

    pub fn name(&self) -> (r: &'a str)
        requires
            self.valid(),
        ensures
            r@ == self.entity().name@,
    {
        self.room().name.as_str()
    }

    pub fn description(&self) -> (r: &'a str)
        requires
            self.valid(),
        ensures
            r@ == self.entity().description@,
    {
        self.room().description.as_str()
    }

    /// The actions available in the room, in order.
    pub fn actions(&self) -> (r: Vec<Action<'a, DB>>)
        requires
            self.valid(),
        ensures
            r@.len() == self.entity().actions@.len(),
            forall|k: int|
                0 <= k < r@.len() ==> {
                    &&& (#[trigger] r@[k]).id_of() == self.entity().actions@[k]
                    &&& r@[k].db_of() == self.db_of()
                    &&& r@[k].valid()
                },
    {
        let room = self.room();
        let mut out: Vec<Action<'a, DB>> = Vec::new();
        let mut k: usize = 0;
        while k < room.actions.len()
            invariant
                self.valid(),
                *room == self.entity(),
                forall|j: int| 0 <= j < room.actions@.len() ==> #[trigger] room.actions@[j].0 < self.db_of().action_count(),
                k <= room.actions@.len(),
                out@.len() == k,
                forall|j: int|
                    0 <= j < k ==> {
                        &&& (#[trigger] out@[j]).id_of() == room.actions@[j]
                        &&& out@[j].db_of() == self.db_of()
                        &&& out@[j].valid()
                    },
            decreases room.actions.len() - k,
        {
            out.push(Action::new(room.actions[k], self.db));
            k += 1;
        }
        out
    }

    /// The characters present in the room, in order.
    pub fn characters(&self) -> (r: Vec<Character<'a, DB>>)
        requires
            self.valid(),
        ensures
            r@.len() == self.entity().characters@.len(),
            forall|k: int|
                0 <= k < r@.len() ==> {
                    &&& (#[trigger] r@[k]).id_of() == self.entity().characters@[k]
                    &&& r@[k].db_of() == self.db_of()
                    &&& r@[k].valid()
                },
    {
        let room = self.room();
        let mut out: Vec<Character<'a, DB>> = Vec::new();
        let mut k: usize = 0;
        while k < room.characters.len()
            invariant
                self.valid(),
                *room == self.entity(),
                forall|j: int| 0 <= j < room.characters@.len() ==> #[trigger] room.characters@[j].0 < self.db_of().character_count(),
                k <= room.characters@.len(),
                out@.len() == k,
                forall|j: int|
                    0 <= j < k ==> {
                        &&& (#[trigger] out@[j]).id_of() == room.characters@[j]
                        &&& out@[j].db_of() == self.db_of()
                        &&& out@[j].valid()
                    },
            decreases room.characters.len() - k,
        {
            out.push(Character::new(room.characters[k], self.db));
            k += 1;
        }
        out
    }

    /// The exits of the room, in the order they were declared.
    pub fn exits(&self) -> (r: Vec<Exit<'a, DB>>)
        requires
            self.valid(),
        ensures
            r@.len() == exit_entries(self.entity().exits).len(),
            forall|k: int|
                0 <= k < r@.len() ==> {
                    &&& (#[trigger] r@[k]).direction_of()@ == exit_entries(self.entity().exits)[k].0
                    &&& r@[k].room_of().id_of().0 == exit_entries(self.entity().exits)[k].1
                    &&& r@[k].room_of().db_of() == self.db_of()
                    &&& r@[k].room_of().valid()
                },
            forall|i: int, j: int|
                0 <= i < j < r@.len() ==> (#[trigger] r@[i]).direction_of()@ != (#[trigger] r@[j]).direction_of()@,
    {
        let room = self.room();
        let n = exits_len(&room.exits);
        let mut out: Vec<Exit<'a, DB>> = Vec::new();
        let mut k: usize = 0;
        while k < n
            invariant
                self.valid(),
                *room == self.entity(),
                n == exit_entries(room.exits).len(),
                forall|j: int|
                    0 <= j < exit_entries(room.exits).len() ==> #[trigger] exit_entries(room.exits)[j].1
                        < self.db_of().room_count(),
                k <= n,
                out@.len() == k,
                forall|j: int|
                    0 <= j < k ==> {
                        &&& (#[trigger] out@[j]).direction_of()@ == exit_entries(room.exits)[j].0
                        &&& out@[j].room_of().id_of().0 == exit_entries(room.exits)[j].1
                        &&& out@[j].room_of().db_of() == self.db_of()
                        &&& out@[j].room_of().valid()
                    },
            decreases n - k,
        {
            if let Some((direction, id)) = exit_at(&room.exits, k) {
                out.push(Exit { direction: direction.clone(), room: Room::new(*id, self.db) });
            }
            k += 1;
        }
        assert forall|i: int, j: int| 0 <= i < j < out@.len() implies (#[trigger] out@[i]).direction_of()@
            != (#[trigger] out@[j]).direction_of()@ by {
            assert(exit_entries(room.exits)[i].0 != exit_entries(room.exits)[j].0);
        }
        out
    }

    /// Moves the player into room `id`.
    pub fn enter<D: Database>(id: RoomId, db: &mut D)
        requires
            old(db).update_inv(),
            old(db).can_enter(id),
        ensures
            final(db).update_inv(),
            old(db).entered(id, *final(db)),
    {
        db.enter_room(id);
    }
}

// ------------------------------------------------------------------ actions

/// An action of a game.
pub struct Action<'a, DB: Lookup> {
    id: ActionId,
    db: &'a DB,
}

impl<'a, DB: Lookup> Action<'a, DB> {
    pub closed spec fn id_of(&self) -> ActionId {
        self.id
    }

    pub closed spec fn db_of(&self) -> DB {
        *self.db
    }

    pub open spec fn valid(&self) -> bool {
        self.db_of().lookup_inv() && self.id_of().0 < self.db_of().action_count()
    }

    pub open spec fn entity(&self) -> ActionEntity {
        self.db_of().action_at(self.id_of())
    }

    pub fn new(id: ActionId, db: &'a DB) -> (r: Self)
        ensures
            r.id_of() == id,
            r.db_of() == *db,
    {
        Action { id, db }
    }

    pub fn into_id(self) -> (r: ActionId)
        ensures
            r == self.id_of(),
    {
        self.id
    }

    pub fn id(&self) -> (r: ActionId)
        ensures
            r == self.id_of(),
    {
        self.id
    }

    fn action(&self) -> (r: &'a ActionEntity)
        requires
            self.valid(),
        ensures
            *r == self.entity(),
    {
        self.db.lookup_action(self.id)
    }

    pub fn name(&self) -> (r: String)
        requires
            self.valid(),
        ensures
            r@ == action_name(self.entity()),
    {
        match self.action() {
            ActionEntity::ChangeRoom(change_room) => change_room.name.clone(),
            ActionEntity::GiveItem(give_item) => give_item.name.clone(),
            ActionEntity::ReplaceItem(replace_item) => replace_item.name.clone(),
            ActionEntity::TakeItem(take_item) => take_item.name.clone(),
            ActionEntity::Teleport(teleport) => teleport.name.clone(),
            ActionEntity::Sequence(chain) => chain.name.clone(),
        }
    }

    pub fn description(&self) -> (r: String)
        requires
            self.valid(),
        ensures
            r@ == action_description(self.entity()),
    {
        match self.action() {
            ActionEntity::ChangeRoom(change_room) => change_room.description.clone(),
            ActionEntity::GiveItem(give_item) => give_item.description.clone(),
            ActionEntity::ReplaceItem(replace_item) => replace_item.description.clone(),
            ActionEntity::TakeItem(take_item) => take_item.description.clone(),
            ActionEntity::Teleport(teleport) => teleport.description.clone(),
            ActionEntity::Sequence(chain) => chain.description.clone(),
        }
    }

    /// Tries action `id`; it succeeds, and changes the game, only when the player holds
    /// what it requires.
    pub fn do_it<U: Update>(id: ActionId, db: &mut U) -> (done: bool)
        requires
            old(db).update_inv(),
            old(db).can_act(id),
        ensures
            final(db).update_inv(),
            old(db).acted(id, done, *final(db)),
    {
        db.do_action(id)
    }
}

// ------------------------------------------------------------------ characters and talk

/// A character of a game.
pub struct Character<'a, DB: Lookup> {
    id: CharacterId,
    db: &'a DB,
}

impl<'a, DB: Lookup> Character<'a, DB> {
    pub closed spec fn id_of(&self) -> CharacterId {
        self.id
    }

    pub closed spec fn db_of(&self) -> DB {
        *self.db
    }

    pub open spec fn valid(&self) -> bool {
        self.db_of().lookup_inv() && self.id_of().0 < self.db_of().character_count()
    }

    pub open spec fn entity(&self) -> CharacterEntity {
        self.db_of().character_at(self.id_of())
    }

    pub fn new(id: CharacterId, db: &'a DB) -> (r: Self)
        ensures
            r.id_of() == id,
            r.db_of() == *db,
    {
        Character { id, db }
    }

    pub fn into_id(self) -> (r: CharacterId)
        ensures
            r == self.id_of(),
    {
        self.id
    }

    pub fn id(&self) -> (r: CharacterId)
        ensures
            r == self.id_of(),
    {
        self.id
    }

    fn character(&self) -> (r: &'a CharacterEntity)
        requires
            self.valid(),
        ensures
            *r == self.entity(),
            r.start_dialogue.0 < self.db_of().dialogue_count(),
    {
        self.db.lookup_character(self.id)
    }

    pub fn name(&self) -> (r: &'a str)
        requires
            self.valid(),
        ensures
            r@ == self.entity().name@,
    {
        self.character().name.as_str()
    }

    /// The dialogue that opens a talk with this character.
    pub fn start_dialogue(&self) -> (r: Dialogue<'a, DB>)
        requires
            self.valid(),
        ensures
            r.id_of() == self.entity().start_dialogue,
            r.db_of() == self.db_of(),
            r.valid(),
    {
        Dialogue::new(self.character().start_dialogue, self.db)
    }
}

/// A dialogue of a game, in the variant chosen for the game's state.
pub struct Dialogue<'a, DB: Lookup> {
    id: DialogueId,
    db: &'a DB,
}

impl<'a, DB: Lookup> Dialogue<'a, DB> {
    pub closed spec fn id_of(&self) -> DialogueId {
        self.id
    }

    pub closed spec fn db_of(&self) -> DB {
        *self.db
    }

    pub open spec fn valid(&self) -> bool {
        self.db_of().lookup_inv() && self.id_of().0 < self.db_of().dialogue_count()
    }

    pub open spec fn entity(&self) -> DialogueVariantEntity {
        self.db_of().dialogue_at(self.id_of())
    }

    pub fn new(id: DialogueId, db: &'a DB) -> (r: Self)
        ensures
            r.id_of() == id,
            r.db_of() == *db,
    {
        Dialogue { id, db }
    }

    pub fn into_id(self) -> (r: DialogueId)
        ensures
            r == self.id_of(),
    {
        self.id
    }

    pub fn id(&self) -> (r: DialogueId)
        ensures
            r == self.id_of(),
    {
        self.id
    }

    fn dialogue(&self) -> (r: &'a DialogueVariantEntity)
        requires
            self.valid(),
        ensures
            *r == self.entity(),
            forall|k: int| 0 <= k < r.responses@.len() ==> #[trigger] r.responses@[k].0 < self.db_of().response_count(),
    {
        self.db.lookup_dialogue(self.id)
    }

    pub fn text(&self) -> (r: &'a str)
        requires
            self.valid(),
        ensures
            r@ == self.entity().text@,
    {
        self.dialogue().text.as_str()
    }

    /// The responses the player may give now, in order.
    pub fn responses(&self) -> (r: Vec<Response<'a, DB>>)
        requires
            self.valid(),
        ensures
            r@.len() == self.db_of().responses_shown(self.entity().responses@).len(),
            forall|k: int|
                0 <= k < r@.len() ==> {
                    &&& (#[trigger] r@[k]).id_of() == self.db_of().responses_shown(self.entity().responses@)[k]
                    &&& r@[k].db_of() == self.db_of()
                    &&& r@[k].valid()
                },
    {
        let ids = self.db.filter_responses(self.dialogue().responses.as_slice());
        let mut out: Vec<Response<'a, DB>> = Vec::new();
        let mut k: usize = 0;
        while k < ids.len()
            invariant
                self.valid(),
                ids@ == self.db_of().responses_shown(self.entity().responses@),
                forall|j: int| 0 <= j < ids@.len() ==> #[trigger] ids@[j].0 < self.db_of().response_count(),
                k <= ids@.len(),
                out@.len() == k,
                forall|j: int|
                    0 <= j < k ==> {
                        &&& (#[trigger] out@[j]).id_of() == ids@[j]
                        &&& out@[j].db_of() == self.db_of()
                        &&& out@[j].valid()
                    },
            decreases ids.len() - k,
        {
            out.push(Response::new(ids[k], self.db));
            k += 1;
        }
        out
    }
}

/// A response the player can give in a dialogue.
pub struct Response<'a, DB: Lookup> {
    id: ResponseId,
    db: &'a DB,
}

impl<'a, DB: Lookup> Response<'a, DB> {
    pub closed spec fn id_of(&self) -> ResponseId {
        self.id
    }

    pub closed spec fn db_of(&self) -> DB {
        *self.db
    }

    pub open spec fn valid(&self) -> bool {
        self.db_of().lookup_inv() && self.id_of().0 < self.db_of().response_count()
    }

    pub open spec fn entity(&self) -> ResponseEntity {
        self.db_of().response_at(self.id_of())
    }

    pub fn new(id: ResponseId, db: &'a DB) -> (r: Self)
        ensures
            r.id_of() == id,
            r.db_of() == *db,
    {
        Response { id, db }
    }

    pub fn into_id(self) -> (r: ResponseId)
        ensures
            r == self.id_of(),
    {
        self.id
    }

    pub fn id(&self) -> (r: ResponseId)
        ensures
            r == self.id_of(),
    {
        self.id
    }

    fn response(&self) -> (r: &'a ResponseEntity)
        requires
            self.valid(),
        ensures
            *r == self.entity(),
            r.leads_to matches Some(d) ==> d.0 < self.db_of().dialogue_count(),
            r.triggers matches Some(a) ==> a.0 < self.db_of().action_count(),
    {
        self.db.lookup_response(self.id)
    }

    pub fn text(&self) -> (r: &'a str)
        requires
            self.valid(),
        ensures
            r@ == self.entity().text@,
    {
        self.response().text.as_str()
    }

    /// The dialogue this response leads to, if any.
    pub fn leads_to(&self) -> (r: Option<Dialogue<'a, DB>>)
        requires
            self.valid(),
        ensures
            r is Some <==> self.entity().leads_to is Some,
            r matches Some(d) ==> d.id_of() == self.entity().leads_to->0 && d.db_of() == self.db_of() && d.valid(),
    {
        match self.response().leads_to {
            Some(id) => Some(Dialogue::new(id, self.db)),
            None => None,
        }
    }

    /// The action this response triggers, if any.
    pub fn trigger(&self) -> (r: Option<Action<'a, DB>>)
        requires
            self.valid(),
        ensures
            r is Some <==> self.entity().triggers is Some,
            r matches Some(a) ==> a.id_of() == self.entity().triggers->0 && a.db_of() == self.db_of() && a.valid(),
    {
        match self.response().triggers {
            Some(id) => Some(Action::new(id, self.db)),
            None => None,
        }
    }
}

// ------------------------------------------------------------------ from indices

impl<'a, DB: Lookup> IntoProxy<'a, RoomId, DB, Room<'a, DB>> for RoomId {
    fn into_proxy(self, db: &'a DB) -> (r: Room<'a, DB>)
        ensures
            r.id_of() == self && r.db_of() == *db,
    {
        Room::new(self, db)
    }
}

impl<'a, DB: Lookup> IntoProxy<'a, ActionId, DB, Action<'a, DB>> for ActionId {
    fn into_proxy(self, db: &'a DB) -> (r: Action<'a, DB>)
        ensures
            r.id_of() == self && r.db_of() == *db,
    {
        Action::new(self, db)
    }
}

impl<'a, DB: Lookup> IntoProxy<'a, CharacterId, DB, Character<'a, DB>> for CharacterId {
    fn into_proxy(self, db: &'a DB) -> (r: Character<'a, DB>)
        ensures
            r.id_of() == self && r.db_of() == *db,
    {
        Character::new(self, db)
    }
}

impl<'a, DB: Lookup> IntoProxy<'a, DialogueId, DB, Dialogue<'a, DB>> for DialogueId {
    fn into_proxy(self, db: &'a DB) -> (r: Dialogue<'a, DB>)
        ensures
            r.id_of() == self && r.db_of() == *db,
    {
        Dialogue::new(self, db)
    }
}

impl<'a, DB: Lookup> IntoProxy<'a, ResponseId, DB, Response<'a, DB>> for ResponseId {
    fn into_proxy(self, db: &'a DB) -> (r: Response<'a, DB>)
        ensures
            r.id_of() == self && r.db_of() == *db,
    {
        Response::new(self, db)
    }
}

} // verus!
