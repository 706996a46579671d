//! The static game world: every entity, addressed by typed indices.

use std::rc::Rc;
use vstd::prelude::*;

use crate::entity::{
    ActionEntity, CharacterEntity, DialogueEntity, DialogueVariantEntity, GameTitle, Item, Language, Requirement,
    ResponseEntity, RoomEntity, RoomVariantEntity, Theme,
};
use crate::exits::{exit_at, exit_entries, exits_len};
use crate::ids::{ActionId, CharacterId, DialogueId, ItemId, ResponseId, RoomId, RoomVariantId};

verus! {

/// `Rc::clone`: another handle to the same value.
#[verifier::external_body]
pub(crate) fn share<T>(r: &Rc<T>) -> (s: Rc<T>)
    ensures
        *s == **r,
{
    Rc::clone(r)
}

#[derive(Debug)]
pub struct World {
    pub title: GameTitle,
    pub theme: Rc<Theme>,
    pub language: Rc<Language>,
    pub items: Vec<Item>,
    pub actions: Vec<ActionEntity>,
    pub rooms: Vec<RoomEntity>,
    pub dialogues: Vec<DialogueEntity>,
    pub characters: Vec<CharacterEntity>,
    pub responses: Vec<ResponseEntity>,
}

pub open spec fn is_sequence(a: ActionEntity) -> bool {
    a matches ActionEntity::Sequence(_)
}

impl World {
    pub open spec fn valid_item(&self, i: ItemId) -> bool {
        i.0 < self.items@.len()
    }

    pub open spec fn valid_room(&self, r: RoomId) -> bool {
        r.0 < self.rooms@.len()
    }

    pub open spec fn valid_action(&self, a: ActionId) -> bool {
        a.0 < self.actions@.len()
    }

    pub open spec fn valid_dialogue(&self, d: DialogueId) -> bool {
        d.0 < self.dialogues@.len()
    }

    pub open spec fn valid_character(&self, c: CharacterId) -> bool {
        c.0 < self.characters@.len()
    }

    pub open spec fn valid_response(&self, r: ResponseId) -> bool {
        r.0 < self.responses@.len()
    }

    pub open spec fn valid_opt_item(&self, i: Option<ItemId>) -> bool {
        i matches Some(x) ==> self.valid_item(x)
    }

    pub open spec fn valid_items(&self, s: Seq<ItemId>) -> bool {
        forall|k: int| 0 <= k < s.len() ==> self.valid_item(#[trigger] s[k])
    }

    /// A variant index that exists for the room.
    pub open spec fn valid_variant(&self, r: RoomId, v: RoomVariantId) -> bool {
        self.valid_room(r) && v.0 < self.rooms@[r.0 as int]@.len()
    }

    pub open spec fn valid_requirement(&self, q: Requirement) -> bool {
        match q {
            Requirement::HasItem(i) => self.valid_item(i),
            Requirement::DoesNotHave(i) => self.valid_item(i),
            Requirement::RoomVariant(r, v) => self.valid_room(r) && (v matches Some(x) ==> self.valid_variant(r, x)),
        }
    }

    pub open spec fn valid_requirements(&self, s: Seq<Requirement>) -> bool {
        forall|k: int| 0 <= k < s.len() ==> self.valid_requirement(#[trigger] s[k])
    }

    /// Every index the action holds exists; a sequence holds no sequence.
    pub open spec fn valid_action_entity(&self, a: ActionEntity) -> bool {
        match a {
            ActionEntity::ChangeRoom(c) => {
                &&& self.valid_opt_item(c.required)
                &&& self.valid_room(c.room)
                &&& c.variant matches Some(v) ==> self.valid_variant(c.room, v)
            },
            ActionEntity::GiveItem(g) => self.valid_opt_item(g.required) && self.valid_items(
                g.items@,
            ),
            ActionEntity::ReplaceItem(r) => self.valid_item(r.original) && self.valid_item(
                r.replacement,
            ),
            ActionEntity::TakeItem(t) => self.valid_items(t.items@),
            ActionEntity::Teleport(t) => self.valid_opt_item(t.required) && self.valid_room(t.room),
            ActionEntity::Sequence(s) => {
                &&& self.valid_opt_item(s.required)
                &&& forall|k: int|
                    0 <= k < s.actions@.len() ==> {
                        &&& self.valid_action(#[trigger] s.actions@[k])
                        &&& !is_sequence(self.actions@[s.actions@[k].0 as int])
                    }
            },
        }
    }

    pub open spec fn valid_room_variant(&self, v: RoomVariantEntity) -> bool {
        &&& forall|k: int| 0 <= k < v.characters@.len() ==> self.valid_character(#[trigger] v.characters@[k])
        &&& forall|k: int| 0 <= k < v.actions@.len() ==> self.valid_action(#[trigger] v.actions@[k])
        &&& forall|k: int|
            0 <= k < exit_entries(v.exits).len() ==> #[trigger] exit_entries(v.exits)[k].1
                < self.rooms@.len()
    }

    pub open spec fn valid_dialogue_variant(&self, dv: DialogueVariantEntity) -> bool {
        &&& forall|k: int| 0 <= k < dv.responses@.len() ==> self.valid_response(#[trigger] dv.responses@[k])
        &&& self.valid_requirements(dv.requires@)
    }

    pub open spec fn valid_response_entity(&self, resp: ResponseEntity) -> bool {
        &&& resp.leads_to matches Some(d) ==> self.valid_dialogue(d)
        &&& resp.triggers matches Some(a) ==> self.valid_action(a)
        &&& self.valid_requirements(resp.requires@)
    }

    /// Every index held anywhere in the world exists, every room and dialogue has a
    /// default variant, and no action sequence holds another sequence.
    pub open spec fn wf(&self) -> bool {
        &&& self.valid_room(self.title.start_room)
        &&& forall|r: int| 0 <= r < self.rooms@.len() ==> #[trigger] self.rooms@[r]@.len() > 0
        &&& forall|r: int, v: int|
            0 <= r < self.rooms@.len() && 0 <= v < self.rooms@[r]@.len()
                ==> self.valid_room_variant(#[trigger] self.rooms@[r]@[v])
        &&& forall|a: int| 0 <= a < self.actions@.len() ==> self.valid_action_entity(#[trigger] self.actions@[a])
        &&& forall|d: int| 0 <= d < self.dialogues@.len() ==> #[trigger] self.dialogues@[d]@.len() > 0
        &&& forall|d: int, v: int|
            0 <= d < self.dialogues@.len() && 0 <= v < self.dialogues@[d]@.len()
                ==> self.valid_dialogue_variant(#[trigger] self.dialogues@[d]@[v])
        &&& forall|c: int| 0 <= c < self.characters@.len()
            ==> self.valid_dialogue(#[trigger] self.characters@[c].start_dialogue)
        &&& forall|r: int| 0 <= r < self.responses@.len()
            ==> self.valid_response_entity(#[trigger] self.responses@[r])
    }
}

} // verus!

verus! {

impl World {
    pub fn new(
        title: GameTitle,
        theme: Theme,
        language: Language,
        items: Vec<Item>,
        actions: Vec<ActionEntity>,
        rooms: Vec<RoomEntity>,
        dialogues: Vec<DialogueEntity>,
        characters: Vec<CharacterEntity>,
        responses: Vec<ResponseEntity>,
    ) -> (w: World)
        ensures
            w.title == title,
            *w.theme == theme,
            *w.language == language,
            w.items == items,
            w.actions == actions,
            w.rooms == rooms,
            w.dialogues == dialogues,
            w.characters == characters,
            w.responses == responses,
    {
        World {
            title,
            theme: Rc::new(theme),
            language: Rc::new(language),
            items,
            actions,
            rooms,
            dialogues,
            characters,
            responses,
        }
    }

    pub fn title(&self) -> (r: &GameTitle)
        ensures
            *r == self.title,
    {
        &self.title
    }

    pub fn theme(&self) -> (r: Rc<Theme>)
        ensures
            *r == *self.theme,
    {
        share(&self.theme)
    }

    pub fn language(&self) -> (r: Rc<Language>)
        ensures
            *r == *self.language,
    {
        share(&self.language)
    }

    pub fn item(&self, id: ItemId) -> (r: &Item)
        requires
            self.valid_item(id),
        ensures
            *r == self.items@[id.0 as int],
    {
        &self.items[id.0]
    }

    pub fn action(&self, id: ActionId) -> (r: &ActionEntity)
        requires
            self.valid_action(id),
        ensures
            *r == self.actions@[id.0 as int],
    {
        &self.actions[id.0]
    }

    /// The room in the given variant, the default one when `variant_id` is `None`.
    pub fn room(&self, id: RoomId, variant_id: Option<RoomVariantId>) -> (r: &RoomVariantEntity)
        requires
            self.valid_room(id),
            self.rooms@[id.0 as int]@.len() > 0,
            variant_id matches Some(v) ==> self.valid_variant(id, v),
        ensures
            *r == self.rooms@[id.0 as int]@[match variant_id {
                Some(v) => v.0 as int,
                None => 0,
            }],
    {
        let v = match variant_id {
            Some(v) => v.0,
            None => 0,
        };
        &self.rooms[id.0][v]
    }

    pub fn dialogue(&self, id: DialogueId) -> (r: &DialogueEntity)
        requires
            self.valid_dialogue(id),
        ensures
            *r == self.dialogues@[id.0 as int],
    {
        &self.dialogues[id.0]
    }

    pub fn character(&self, id: CharacterId) -> (r: &CharacterEntity)
        requires
            self.valid_character(id),
        ensures
            *r == self.characters@[id.0 as int],
    {
        &self.characters[id.0]
    }

    pub fn response(&self, id: ResponseId) -> (r: &ResponseEntity)
        requires
            self.valid_response(id),
        ensures
            *r == self.responses@[id.0 as int],
    {
        &self.responses[id.0]
    }
}

} // verus!

verus! {

impl World {
    fn check_opt_item(&self, i: Option<ItemId>) -> (b: bool)
        ensures
            b == self.valid_opt_item(i),
    {
        match i {
            Some(x) => x.0 < self.items.len(),
            None => true,
        }
    }

    fn check_items(&self, s: &Vec<ItemId>) -> (b: bool)
        ensures
            b == self.valid_items(s@),
    {
        let mut k: usize = 0;
        while k < s.len()
            invariant
                k <= s.len(),
                forall|j: int| 0 <= j < k ==> self.valid_item(#[trigger] s@[j]),
            decreases s.len() - k,
        {
            if s[k].0 >= self.items.len() {
                return false;
            }
            k += 1;
        }
        true
    }

    fn check_requirements(&self, s: &Vec<Requirement>) -> (b: bool)
        ensures
            b == self.valid_requirements(s@),
    {
        let mut k: usize = 0;
        while k < s.len()
            invariant
                k <= s.len(),
                forall|j: int| 0 <= j < k ==> self.valid_requirement(#[trigger] s@[j]),
            decreases s.len() - k,
        {
            let ok = match &s[k] {
                Requirement::HasItem(i) => i.0 < self.items.len(),
                Requirement::DoesNotHave(i) => i.0 < self.items.len(),
                Requirement::RoomVariant(r, v) => r.0 < self.rooms.len() && match v {
                    Some(x) => x.0 < self.rooms[r.0].len(),
                    None => true,
                },
            };
            if !ok {
                return false;
            }
            k += 1;
        }
        true
    }

    fn check_action_entity(&self, a: &ActionEntity) -> (b: bool)
        ensures
            b == self.valid_action_entity(*a),
    {
        match a {
            ActionEntity::ChangeRoom(c) => {
                if !self.check_opt_item(c.required) || c.room.0 >= self.rooms.len() {
                    return false;
                }
                match c.variant {
                    Some(v) => v.0 < self.rooms[c.room.0].len(),
                    None => true,
                }
            },
            ActionEntity::GiveItem(g) => self.check_opt_item(g.required) && self.check_items(
                &g.items,
            ),
            ActionEntity::ReplaceItem(r) => r.original.0 < self.items.len() && r.replacement.0
                < self.items.len(),
            ActionEntity::TakeItem(t) => self.check_items(&t.items),
            ActionEntity::Teleport(t) => self.check_opt_item(t.required) && t.room.0
                < self.rooms.len(),
            ActionEntity::Sequence(s) => {
                if !self.check_opt_item(s.required) {
                    return false;
                }
                let mut k: usize = 0;
                while k < s.actions.len()
                    invariant
                        *a == ActionEntity::Sequence(*s),
                        k <= s.actions@.len(),
                        forall|j: int|
                            0 <= j < k ==> {
                                &&& self.valid_action(#[trigger] s.actions@[j])
                                &&& !is_sequence(self.actions@[s.actions@[j].0 as int])
                            },
                    decreases s.actions.len() - k,
                {
                    let id = s.actions[k];
                    if id.0 >= self.actions.len() {
                        assert(!self.valid_action(s.actions@[k as int]));
                        return false;
                    }
                    if let ActionEntity::Sequence(_) = &self.actions[id.0] {
                        assert(is_sequence(self.actions@[s.actions@[k as int].0 as int]));
                        return false;
                    }
                    k += 1;
                }
                true
            },
        }
    }

    fn check_room_variant(&self, v: &RoomVariantEntity) -> (b: bool)
        ensures
            b == self.valid_room_variant(*v),
    {
        let mut k: usize = 0;
        while k < v.characters.len()
            invariant
                k <= v.characters@.len(),
                forall|j: int| 0 <= j < k ==> self.valid_character(#[trigger] v.characters@[j]),
            decreases v.characters.len() - k,
        {
            if v.characters[k].0 >= self.characters.len() {
                return false;
            }
            k += 1;
        }
        let mut k: usize = 0;
        while k < v.actions.len()
            invariant
                k <= v.actions@.len(),
                forall|j: int| 0 <= j < k ==> self.valid_action(#[trigger] v.actions@[j]),
            decreases v.actions.len() - k,
        {
            if v.actions[k].0 >= self.actions.len() {
                return false;
            }
            k += 1;
        }
        let n = exits_len(&v.exits);
        let mut k: usize = 0;
        while k < n
            invariant
                k <= n == exit_entries(v.exits).len(),
                forall|j: int|
                    0 <= j < k ==> #[trigger] exit_entries(v.exits)[j].1 < self.rooms@.len(),
            decreases n - k,
        {
            if let Some((_, r)) = exit_at(&v.exits, k) {
                if r.0 >= self.rooms.len() {
                    return false;
                }
            }
            k += 1;
        }
        true
    }

    fn check_dialogue_variant(&self, dv: &DialogueVariantEntity) -> (b: bool)
        ensures
            b == self.valid_dialogue_variant(*dv),
    {
        let mut k: usize = 0;
        while k < dv.responses.len()
            invariant
                k <= dv.responses@.len(),
                forall|j: int| 0 <= j < k ==> self.valid_response(#[trigger] dv.responses@[j]),
            decreases dv.responses.len() - k,
        {
            if dv.responses[k].0 >= self.responses.len() {
                return false;
            }
            k += 1;
        }
        self.check_requirements(&dv.requires)
    }

    fn check_response_entity(&self, r: &ResponseEntity) -> (b: bool)
        ensures
            b == self.valid_response_entity(*r),
    {
        let leads = match r.leads_to {
            Some(d) => d.0 < self.dialogues.len(),
            None => true,
        };
        let triggers = match r.triggers {
            Some(a) => a.0 < self.actions.len(),
            None => true,
        };
        leads && triggers && self.check_requirements(&r.requires)
    }

    /// Tests `wf`: whether every index held in the world exists (see `wf`).
    pub fn is_well_formed(&self) -> (b: bool)
        ensures
            b == self.wf(),
    {
        if self.title.start_room.0 >= self.rooms.len() {
            return false;
        }
        let mut r: usize = 0;
        while r < self.rooms.len()
            invariant
                r <= self.rooms@.len(),
                forall|i: int| 0 <= i < r ==> #[trigger] self.rooms@[i]@.len() > 0,
                forall|i: int, v: int|
                    0 <= i < r && 0 <= v < self.rooms@[i]@.len() ==> self.valid_room_variant(
                        #[trigger] self.rooms@[i]@[v],
                    ),
            decreases self.rooms.len() - r,
        {
            let room = &self.rooms[r];
            if room.len() == 0 {
                return false;
            }
            let mut v: usize = 0;
            while v < room.len()
                invariant
                    r < self.rooms@.len(),
                    *room == self.rooms@[r as int],
                    v <= room@.len(),
                    forall|j: int| 0 <= j < v ==> self.valid_room_variant(#[trigger] room@[j]),
                decreases room.len() - v,
            {
                if !self.check_room_variant(&room[v]) {
                    return false;
                }
                v += 1;
            }
            r += 1;
        }
        let mut a: usize = 0;
        while a < self.actions.len()
            invariant
                a <= self.actions@.len(),
                forall|i: int| 0 <= i < a ==> self.valid_action_entity(#[trigger] self.actions@[i]),
            decreases self.actions.len() - a,
        {
            if !self.check_action_entity(&self.actions[a]) {
                return false;
            }
            a += 1;
        }
        let mut d: usize = 0;
        while d < self.dialogues.len()
            invariant
                d <= self.dialogues@.len(),
                forall|i: int| 0 <= i < d ==> #[trigger] self.dialogues@[i]@.len() > 0,
                forall|i: int, v: int|
                    0 <= i < d && 0 <= v < self.dialogues@[i]@.len()
                        ==> self.valid_dialogue_variant(#[trigger] self.dialogues@[i]@[v]),
            decreases self.dialogues.len() - d,
        {
            let dialogue = &self.dialogues[d];
            if dialogue.len() == 0 {
                return false;
            }
            let mut v: usize = 0;
            while v < dialogue.len()
                invariant
                    d < self.dialogues@.len(),
                    *dialogue == self.dialogues@[d as int],
                    v <= dialogue@.len(),
                    forall|j: int| 0 <= j < v ==> self.valid_dialogue_variant(#[trigger] dialogue@[j]),
                decreases dialogue.len() - v,
            {
                if !self.check_dialogue_variant(&dialogue[v]) {
                    return false;
                }
                v += 1;
            }
            d += 1;
        }
        let mut c: usize = 0;
        while c < self.characters.len()
            invariant
                c <= self.characters@.len(),
                forall|i: int| 0 <= i < c ==> self.valid_dialogue(#[trigger] self.characters@[i].start_dialogue),
            decreases self.characters.len() - c,
        {
            if self.characters[c].start_dialogue.0 >= self.dialogues.len() {
                return false;
            }
            c += 1;
        }
        let mut q: usize = 0;
        while q < self.responses.len()
            invariant
                q <= self.responses@.len(),
                forall|i: int| 0 <= i < q ==> self.valid_response_entity(#[trigger] self.responses@[i]),
            decreases self.responses.len() - q,
        {
            if !self.check_response_entity(&self.responses[q]) {
                return false;
            }
            q += 1;
        }
        true
    }
}

} // verus!
