//! What the entity views read from a game (`Lookup`) and change in it (`Update`).

use vstd::prelude::*;

use crate::entity::{
    ActionEntity, CharacterEntity, DialogueVariantEntity, ResponseEntity, RoomVariantEntity,
};
use crate::exits::exit_entries;
use crate::ids::{ActionId, CharacterId, DialogueId, ResponseId, RoomId};

verus! {

/// Read access to the entities of a game, as they currently appear.
pub trait Lookup: Sized {
    /// The store is consistent: every index an entity holds exists.
    spec fn lookup_inv(&self) -> bool;

    spec fn character_count(&self) -> nat;

    spec fn action_count(&self) -> nat;

    spec fn room_count(&self) -> nat;

    spec fn dialogue_count(&self) -> nat;

    spec fn response_count(&self) -> nat;

    spec fn character_at(&self, id: CharacterId) -> CharacterEntity;

    spec fn action_at(&self, id: ActionId) -> ActionEntity;

    /// The room as it currently appears (its active variant).
    spec fn room_at(&self, id: RoomId) -> RoomVariantEntity;

    /// The dialogue as it currently appears (the variant chosen for the game's state).
    spec fn dialogue_at(&self, id: DialogueId) -> DialogueVariantEntity;

    spec fn response_at(&self, id: ResponseId) -> ResponseEntity;

    /// The responses of `ids` that may currently be given, in order.
    spec fn responses_shown(&self, ids: Seq<ResponseId>) -> Seq<ResponseId>;

    fn lookup_character(&self, id: CharacterId) -> (r: &CharacterEntity)
        requires
            self.lookup_inv(),
            id.0 < self.character_count(),
        ensures
            *r == self.character_at(id),
            r.start_dialogue.0 < self.dialogue_count(),
    ;

    fn lookup_action(&self, id: ActionId) -> (r: &ActionEntity)
        requires
            self.lookup_inv(),
            id.0 < self.action_count(),
        ensures
            *r == self.action_at(id),
    ;

    fn lookup_room(&self, id: RoomId) -> (r: &RoomVariantEntity)
        requires
            self.lookup_inv(),
            id.0 < self.room_count(),
        ensures
            *r == self.room_at(id),
            forall|k: int| 0 <= k < r.characters@.len() ==> #[trigger] r.characters@[k].0 < self.character_count(),
            forall|k: int| 0 <= k < r.actions@.len() ==> #[trigger] r.actions@[k].0 < self.action_count(),
            forall|k: int|
                0 <= k < exit_entries(r.exits).len() ==> #[trigger] exit_entries(r.exits)[k].1
                    < self.room_count(),
    ;

    fn lookup_dialogue(&self, id: DialogueId) -> (r: &DialogueVariantEntity)
        requires
            self.lookup_inv(),
            id.0 < self.dialogue_count(),
        ensures
            *r == self.dialogue_at(id),
            forall|k: int| 0 <= k < r.responses@.len() ==> #[trigger] r.responses@[k].0 < self.response_count(),
    ;

    fn lookup_response(&self, id: ResponseId) -> (r: &ResponseEntity)
        requires
            self.lookup_inv(),
            id.0 < self.response_count(),
        ensures
            *r == self.response_at(id),
            r.leads_to matches Some(d) ==> d.0 < self.dialogue_count(),
            r.triggers matches Some(a) ==> a.0 < self.action_count(),
    ;

    fn filter_responses(&self, unfiltered: &[ResponseId]) -> (r: Vec<ResponseId>)
        requires
            self.lookup_inv(),
            forall|k: int| 0 <= k < unfiltered@.len() ==> #[trigger] unfiltered@[k].0 < self.response_count(),
        ensures
            r@ == self.responses_shown(unfiltered@),
            forall|k: int| 0 <= k < r@.len() ==> #[trigger] r@[k].0 < self.response_count(),
    ;
}

/// Changes to a game: moving the player and performing actions.
pub trait Update: Sized {
    spec fn update_inv(&self) -> bool;

    spec fn can_enter(&self, id: RoomId) -> bool;

    spec fn can_act(&self, id: ActionId) -> bool;

    /// `next` is this game after the player entered room `id`.
    spec fn entered(&self, id: RoomId, next: Self) -> bool;

    /// `next` is this game after trying action `id`, which succeeded when `done`.
    spec fn acted(&self, id: ActionId, done: bool, next: Self) -> bool;

    fn enter_room(&mut self, id: RoomId)
        requires
            old(self).update_inv(),
            old(self).can_enter(id),
        ensures
            final(self).update_inv(),
            old(self).entered(id, *final(self)),
    ;

    fn do_action(&mut self, id: ActionId) -> (done: bool)
        requires
            old(self).update_inv(),
            old(self).can_act(id),
        ensures
            final(self).update_inv(),
            old(self).acted(id, done, *final(self)),
    ;
}

/// A game that can be both read and changed.
pub trait Database: Lookup + Update {}

/// Turns an index into a view of the entity it names.
pub trait IntoProxy<'a, Id, DB: Lookup, ProxyT>: Sized {
    fn into_proxy(self, db: &'a DB) -> ProxyT;
}

} // verus!
