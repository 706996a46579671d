//! Turning the names that entities refer to into indices.

use indexmap::IndexMap;
use vstd::prelude::*;

use crate::config::action::{action_raw_view, ActionText};
use crate::config::dialogue::{dialogue_raw_view, DialogueText};
use crate::config::ids::{id_lookup, last_index, variant_index_at, variant_lookup, IdMap, NameIndex, VariantKey};
use crate::config::iter::{fold_results, lemma_fold_results_all, lemma_fold_results_err, lemma_fold_results_step};
use crate::config::requirement::{requirement_raw_view, requirements_raw_view, RequirementText};
use crate::config::response::{response_raw_view, ResponseText};
use crate::config::room::{inserted_all, room_raw_view, RoomText};
use crate::config::section::{ids_view, titles_view};
use crate::entity::{
    ActionEntity, ActionRaw, ChangeRoom, CharacterEntity, CharacterRaw, DialogueRaw, DialogueVariantEntity, GiveItem,
    ReplaceItem, Requirement, RequirementRaw, ResponseEntity, ResponseRaw, RoomRaw, RoomVariantEntity, Sequence,
    TakeItem, Teleport,
};
use crate::error::{Application, ErrorView};
use crate::exits::{exit_entries, insert_exit, new_exits, raw_exit_at, raw_exit_entries, raw_exits_len};
use crate::ids::{ActionId, CharacterId, DialogueId, ItemId, ResponseId, RoomId, RoomVariantId};
use crate::names::{Identifier, Title};
use crate::text;

verus! {

/// The names that references are looked up in.
pub struct Lookups {
    pub items: Seq<Seq<char>>,
    pub actions: Seq<Seq<char>>,
    pub responses: Seq<Seq<char>>,
    pub characters: Seq<Seq<char>>,
    pub rooms: Seq<VariantKey>,
    pub dialogues: Seq<VariantKey>,
}

/// The index of a plain entity: the last one with the name.
pub open spec fn plain_ref(names: Seq<Seq<char>>, etype: Seq<char>, n: Seq<char>) -> Result<usize, ErrorView> {
    let i = last_index(names, n);
    if i >= 0 {
        Ok(i as usize)
    } else {
        Err(ErrorView::EntityNotFound { etype, id: n })
    }
}

pub open spec fn item_ref(l: Lookups, n: Seq<char>) -> Result<ItemId, ErrorView> {
    match plain_ref(l.items, "Item"@, n) {
        Ok(i) => Ok(ItemId(i)),
        Err(e) => Err(e),
    }
}

pub open spec fn action_ref(l: Lookups, n: Seq<char>) -> Result<ActionId, ErrorView> {
    match plain_ref(l.actions, "Action"@, n) {
        Ok(i) => Ok(ActionId(i)),
        Err(e) => Err(e),
    }
}

pub open spec fn response_ref(l: Lookups, n: Seq<char>) -> Result<ResponseId, ErrorView> {
    match plain_ref(l.responses, "Response"@, n) {
        Ok(i) => Ok(ResponseId(i)),
        Err(e) => Err(e),
    }
}

pub open spec fn character_ref(l: Lookups, n: Seq<char>) -> Result<CharacterId, ErrorView> {
    match plain_ref(l.characters, "Character"@, n) {
        Ok(i) => Ok(CharacterId(i)),
        Err(e) => Err(e),
    }
}

pub open spec fn room_ref(l: Lookups, n: Seq<char>) -> Result<RoomId, ErrorView> {
    match id_lookup(l.rooms, "Room"@, "Room default"@, n) {
        Ok(i) => Ok(RoomId(i)),
        Err(e) => Err(e),
    }
}

pub open spec fn room_variant_ref(l: Lookups, n: Seq<char>, v: Option<Seq<char>>) -> Result<Option<RoomVariantId>, ErrorView> {
    match variant_lookup(l.rooms, "Room"@, n, v) {
        Ok(Some(i)) => Ok(Some(RoomVariantId(i))),
        Ok(None) => Ok(None),
        Err(e) => Err(e),
    }
}

pub open spec fn dialogue_ref(l: Lookups, n: Seq<char>) -> Result<DialogueId, ErrorView> {
    match id_lookup(l.dialogues, "Dialogue"@, "Dialogue default"@, n) {
        Ok(i) => Ok(DialogueId(i)),
        Err(e) => Err(e),
    }
}

pub open spec fn opt_item_ref(l: Lookups, o: Option<Seq<char>>) -> Result<Option<ItemId>, ErrorView> {
    match o {
        None => Ok(None),
        Some(n) => match item_ref(l, n) {
            Ok(i) => Ok(Some(i)),
            Err(e) => Err(e),
        },
    }
}

pub open spec fn opt_dialogue_ref(l: Lookups, o: Option<Seq<char>>) -> Result<Option<DialogueId>, ErrorView> {
    match o {
        None => Ok(None),
        Some(n) => match dialogue_ref(l, n) {
            Ok(i) => Ok(Some(i)),
            Err(e) => Err(e),
        },
    }
}

pub open spec fn opt_action_ref(l: Lookups, o: Option<Seq<char>>) -> Result<Option<ActionId>, ErrorView> {
    match o {
        None => Ok(None),
        Some(n) => match action_ref(l, n) {
            Ok(i) => Ok(Some(i)),
            Err(e) => Err(e),
        },
    }
}

pub open spec fn item_refs(l: Lookups, s: Seq<Seq<char>>) -> Result<Seq<ItemId>, ErrorView> {
    fold_results(s, |n: Seq<char>| item_ref(l, n))
}

pub open spec fn action_refs(l: Lookups, s: Seq<Seq<char>>) -> Result<Seq<ActionId>, ErrorView> {
    fold_results(s, |n: Seq<char>| action_ref(l, n))
}

pub open spec fn response_refs(l: Lookups, s: Seq<Seq<char>>) -> Result<Seq<ResponseId>, ErrorView> {
    fold_results(s, |n: Seq<char>| response_ref(l, n))
}

pub open spec fn character_refs(l: Lookups, s: Seq<Seq<char>>) -> Result<Seq<CharacterId>, ErrorView> {
    fold_results(s, |n: Seq<char>| character_ref(l, n))
}

/// A requirement with its names turned into indices.
pub open spec fn requirement_ref(l: Lookups, q: RequirementText) -> Result<Requirement, ErrorView> {
    match q {
        RequirementText::HasItem(n) => match item_ref(l, n) {
            Ok(i) => Ok(Requirement::HasItem(i)),
            Err(e) => Err(e),
        },
        RequirementText::RoomVariant(n, v) => match room_ref(l, n) {
            Err(e) => Err(e),
            Ok(r) => match room_variant_ref(l, n, v) {
                Err(e) => Err(e),
                Ok(x) => Ok(Requirement::RoomVariant(r, x)),
            },
        },
        RequirementText::DoesNotHave(n) => match item_ref(l, n) {
            Ok(i) => Ok(Requirement::DoesNotHave(i)),
            Err(e) => Err(e),
        },
    }
}

pub open spec fn requirement_refs(l: Lookups, s: Seq<RequirementText>) -> Result<Seq<Requirement>, ErrorView> {
    fold_results(s, |q: RequirementText| requirement_ref(l, q))
}

/// An action with indices.
pub enum ActionModel {
    ChangeRoom {
        name: Seq<char>,
        description: Seq<char>,
        required: Option<ItemId>,
        room: RoomId,
        variant: Option<RoomVariantId>,
    },
    GiveItem { name: Seq<char>, description: Seq<char>, required: Option<ItemId>, items: Seq<ItemId> },
    ReplaceItem { name: Seq<char>, description: Seq<char>, original: ItemId, replacement: ItemId },
    TakeItem { name: Seq<char>, description: Seq<char>, items: Seq<ItemId> },
    Teleport { name: Seq<char>, description: Seq<char>, required: Option<ItemId>, room: RoomId },
    Sequence { name: Seq<char>, description: Seq<char>, required: Option<ItemId>, actions: Seq<ActionId> },
}

pub open spec fn action_entity_view(a: ActionEntity) -> ActionModel {
    match a {
        ActionEntity::ChangeRoom(c) => ActionModel::ChangeRoom {
            name: c.name@,
            description: c.description@,
            required: c.required,
            room: c.room,
            variant: c.variant,
        },
        ActionEntity::GiveItem(g) => ActionModel::GiveItem {
            name: g.name@,
            description: g.description@,
            required: g.required,
            items: g.items@,
        },
        ActionEntity::ReplaceItem(r) => ActionModel::ReplaceItem {
            name: r.name@,
            description: r.description@,
            original: r.original,
            replacement: r.replacement,
        },
        ActionEntity::TakeItem(t) => ActionModel::TakeItem { name: t.name@, description: t.description@, items: t.items@ },
        ActionEntity::Teleport(t) => ActionModel::Teleport {
            name: t.name@,
            description: t.description@,
            required: t.required,
            room: t.room,
        },
        ActionEntity::Sequence(s) => ActionModel::Sequence {
            name: s.name@,
            description: s.description@,
            required: s.required,
            actions: s.actions@,
        },
    }
}

/// An action with its names turned into indices.
pub open spec fn action_ref_of(l: Lookups, a: ActionText) -> Result<ActionModel, ErrorView> {
    match a {
        ActionText::ChangeRoom { name, description, required, room, variant } => match opt_item_ref(l, required) {
            Err(e) => Err(e),
            Ok(req) => match room_ref(l, room) {
                Err(e) => Err(e),
                Ok(r) => match room_variant_ref(l, room, variant) {
                    Err(e) => Err(e),
                    Ok(v) => Ok(ActionModel::ChangeRoom { name, description, required: req, room: r, variant: v }),
                },
            },
        },
        ActionText::GiveItem { name, description, required, items } => match opt_item_ref(l, required) {
            Err(e) => Err(e),
            Ok(req) => match item_refs(l, items) {
                Err(e) => Err(e),
                Ok(its) => Ok(ActionModel::GiveItem { name, description, required: req, items: its }),
            },
        },
        ActionText::ReplaceItem { name, description, original, replacement } => match item_ref(l, original) {
            Err(e) => Err(e),
            Ok(o) => match item_ref(l, replacement) {
                Err(e) => Err(e),
                Ok(r) => Ok(ActionModel::ReplaceItem { name, description, original: o, replacement: r }),
            },
        },
        ActionText::TakeItem { name, description, items } => match item_refs(l, items) {
            Err(e) => Err(e),
            Ok(its) => Ok(ActionModel::TakeItem { name, description, items: its }),
        },
        ActionText::Teleport { name, description, required, room } => match opt_item_ref(l, required) {
            Err(e) => Err(e),
            Ok(req) => match room_ref(l, room) {
                Err(e) => Err(e),
                Ok(r) => Ok(ActionModel::Teleport { name, description, required: req, room: r }),
            },
        },
        ActionText::Sequence { name, description, required, actions } => match opt_item_ref(l, required) {
            Err(e) => Err(e),
            Ok(req) => match action_refs(l, actions) {
                Err(e) => Err(e),
                Ok(acts) => Ok(ActionModel::Sequence { name, description, required: req, actions: acts }),
            },
        },
    }
}

/// A response with indices.
pub struct ResponseModel {
    pub text: Seq<char>,
    pub leads_to: Option<DialogueId>,
    pub triggers: Option<ActionId>,
    pub requires: Seq<Requirement>,
}

pub open spec fn response_entity_view(r: ResponseEntity) -> ResponseModel {
    ResponseModel { text: r.text@, leads_to: r.leads_to, triggers: r.triggers, requires: r.requires@ }
}

pub open spec fn response_ref_of(l: Lookups, r: ResponseText) -> Result<ResponseModel, ErrorView> {
    match opt_dialogue_ref(l, r.leads_to) {
        Err(e) => Err(e),
        Ok(leads_to) => match opt_action_ref(l, r.triggers) {
            Err(e) => Err(e),
            Ok(triggers) => match requirement_refs(l, r.requires) {
                Err(e) => Err(e),
                Ok(reqs) => Ok(ResponseModel { text: r.text, leads_to, triggers, requires: reqs }),
            },
        },
    }
}

pub open spec fn character_entity_view(c: CharacterEntity) -> (Seq<char>, DialogueId) {
    (c.name@, c.start_dialogue)
}

pub open spec fn character_ref_of(l: Lookups, c: (Seq<char>, Seq<char>)) -> Result<(Seq<char>, DialogueId), ErrorView> {
    match dialogue_ref(l, c.1) {
        Err(e) => Err(e),
        Ok(d) => Ok((c.0, d)),
    }
}

/// A room variant with indices.
pub struct RoomVariantModel {
    pub name: Seq<char>,
    pub description: Seq<char>,
    pub characters: Seq<CharacterId>,
    pub exits: Seq<(Seq<char>, usize)>,
    pub actions: Seq<ActionId>,
}

pub open spec fn room_variant_view(v: RoomVariantEntity) -> RoomVariantModel {
    RoomVariantModel {
        name: v.name@,
        description: v.description@,
        characters: v.characters@,
        exits: exit_entries(v.exits),
        actions: v.actions@,
    }
}

pub open spec fn exit_ref(l: Lookups, x: (Seq<char>, Seq<char>)) -> Result<(Seq<char>, usize), ErrorView> {
    match room_ref(l, x.1) {
        Err(e) => Err(e),
        Ok(r) => Ok((x.0, r.0)),
    }
}

/// The exit table with its rooms turned into indices.
pub open spec fn exits_ref(l: Lookups, exits: Seq<(Seq<char>, Seq<char>)>) -> Result<Seq<(Seq<char>, usize)>, ErrorView> {
    match fold_results(exits, |x: (Seq<char>, Seq<char>)| exit_ref(l, x)) {
        Err(e) => Err(e),
        Ok(pairs) => Ok(inserted_all(pairs)),
    }
}

pub open spec fn room_variant_ref_of(l: Lookups, r: RoomText) -> Result<RoomVariantModel, ErrorView> {
    match character_refs(l, r.characters) {
        Err(e) => Err(e),
        Ok(cs) => match exits_ref(l, r.exits) {
            Err(e) => Err(e),
            Ok(xs) => match action_refs(l, r.actions) {
                Err(e) => Err(e),
                Ok(acts) => Ok(RoomVariantModel {
                    name: r.name,
                    description: r.description,
                    characters: cs,
                    exits: xs,
                    actions: acts,
                }),
            },
        },
    }
}

/// A dialogue variant with indices.
pub struct DialogueVariantModel {
    pub text: Seq<char>,
    pub responses: Seq<ResponseId>,
    pub requires: Seq<Requirement>,
}

pub open spec fn dialogue_variant_view(v: DialogueVariantEntity) -> DialogueVariantModel {
    DialogueVariantModel { text: v.text@, responses: v.responses@, requires: v.requires@ }
}

pub open spec fn dialogue_variant_ref_of(l: Lookups, d: DialogueText) -> Result<DialogueVariantModel, ErrorView> {
    match response_refs(l, d.responses) {
        Err(e) => Err(e),
        Ok(rs) => match requirement_refs(l, d.requires) {
            Err(e) => Err(e),
            Ok(reqs) => Ok(DialogueVariantModel { text: d.text, responses: rs, requires: reqs }),
        },
    }
}

/// `groups` with empty groups added until group `id` exists, then slot `vid` of that
/// group set to `v`, empty slots added before it as needed.
pub open spec fn placed<V>(groups: Seq<Seq<Option<V>>>, id: int, vid: int, v: V) -> Seq<Seq<Option<V>>> {
    let a = if id < groups.len() {
        groups
    } else {
        groups + Seq::new((id + 1 - groups.len()) as nat, |i: int| Seq::<Option<V>>::empty())
    };
    let g = a[id];
    let h = if vid < g.len() {
        g
    } else {
        g + Seq::new((vid + 1 - g.len()) as nat, |i: int| None::<V>)
    };
    a.update(id, h.update(vid, Some(v)))
}

/// The values in the slots of each group.
pub open spec fn filled<V>(groups: Seq<Seq<Option<V>>>) -> Seq<Seq<V>> {
    groups.map_values(|g: Seq<Option<V>>| g.map_values(|o: Option<V>| o->Some_0))
}

/// The first `n` room sections resolved, each put in the group of its room's index at
/// the slot of its variant index, a later section taking the slot of an earlier one.
pub open spec fn slotted_rooms(l: Lookups, raws: Seq<RoomText>, n: int) -> Result<Seq<Seq<Option<RoomVariantModel>>>, ErrorView>
    decreases n,
{
    if n <= 0 {
        Ok(Seq::empty())
    } else {
        match slotted_rooms(l, raws, n - 1) {
            Err(e) => Err(e),
            Ok(acc) => match room_ref(l, raws[n - 1].name) {
                Err(e) => Err(e),
                Ok(id) => match room_variant_ref_of(l, raws[n - 1]) {
                    Err(e) => Err(e),
                    Ok(v) => Ok(placed(acc, id.0 as int, variant_index_at(l.rooms, n - 1) as int, v)),
                },
            },
        }
    }
}

/// The rooms: each room's variants at their variant indices (`map_ids`), the default
/// variant first.
pub open spec fn group_rooms(l: Lookups, raws: Seq<RoomText>) -> Result<Seq<Seq<RoomVariantModel>>, ErrorView> {
    match slotted_rooms(l, raws, raws.len() as int) {
        Err(e) => Err(e),
        Ok(g) => Ok(filled(g)),
    }
}

/// The first `n` dialogue sections resolved and put in their slots, as for rooms.
pub open spec fn slotted_dialogues(l: Lookups, raws: Seq<DialogueText>, n: int) -> Result<Seq<Seq<Option<DialogueVariantModel>>>, ErrorView>
    decreases n,
{
    if n <= 0 {
        Ok(Seq::empty())
    } else {
        match slotted_dialogues(l, raws, n - 1) {
            Err(e) => Err(e),
            Ok(acc) => match dialogue_ref(l, raws[n - 1].name) {
                Err(e) => Err(e),
                Ok(id) => match dialogue_variant_ref_of(l, raws[n - 1]) {
                    Err(e) => Err(e),
                    Ok(v) => Ok(placed(acc, id.0 as int, variant_index_at(l.dialogues, n - 1) as int, v)),
                },
            },
        }
    }
}

/// The dialogues: each dialogue's variants at their variant indices, the default first.
pub open spec fn group_dialogues(l: Lookups, raws: Seq<DialogueText>) -> Result<Seq<Seq<DialogueVariantModel>>, ErrorView> {
    match slotted_dialogues(l, raws, raws.len() as int) {
        Err(e) => Err(e),
        Ok(g) => Ok(filled(g)),
    }
}

/// What the resolver looks names up in.
pub struct Resolver {
    pub items: NameIndex,
    pub actions: NameIndex,
    pub responses: NameIndex,
    pub characters: NameIndex,
    pub rooms: IdMap,
    pub dialogues: IdMap,
}

impl Resolver {
    pub open spec fn lookups(&self) -> Lookups {
        Lookups {
            items: self.items.view(),
            actions: self.actions.view(),
            responses: self.responses.view(),
            characters: self.characters.view(),
            rooms: self.rooms.keys(),
            dialogues: self.dialogues.keys(),
        }
    }

    pub open spec fn wf(&self) -> bool {
        self.rooms.wf() && self.dialogues.wf()
    }

    pub fn item(&self, n: &Identifier) -> (r: Result<ItemId, Application>)
        ensures
            match item_ref(self.lookups(), n@) {
                Ok(i) => r == Ok::<ItemId, Application>(i),
                Err(e) => r is Err && r->Err_0@ == e,
            },
    {
        let i = self.items.require("Item", n.as_str())?;
        Ok(ItemId(i))
    }

    pub fn action(&self, n: &Identifier) -> (r: Result<ActionId, Application>)
        ensures
            match action_ref(self.lookups(), n@) {
                Ok(i) => r == Ok::<ActionId, Application>(i),
                Err(e) => r is Err && r->Err_0@ == e,
            },
    {
        let i = self.actions.require("Action", n.as_str())?;
        Ok(ActionId(i))
    }

    pub fn response(&self, n: &Identifier) -> (r: Result<ResponseId, Application>)
        ensures
            match response_ref(self.lookups(), n@) {
                Ok(i) => r == Ok::<ResponseId, Application>(i),
                Err(e) => r is Err && r->Err_0@ == e,
            },
    {
        let i = self.responses.require("Response", n.as_str())?;
        Ok(ResponseId(i))
    }

    pub fn character(&self, n: &Title) -> (r: Result<CharacterId, Application>)
        ensures
            match character_ref(self.lookups(), n@) {
                Ok(i) => r == Ok::<CharacterId, Application>(i),
                Err(e) => r is Err && r->Err_0@ == e,
            },
    {
        let i = self.characters.require("Character", n.as_str())?;
        Ok(CharacterId(i))
    }

    pub fn room(&self, n: &Title) -> (r: Result<RoomId, Application>)
        requires
            self.wf(),
        ensures
            match room_ref(self.lookups(), n@) {
                Ok(i) => r == Ok::<RoomId, Application>(i),
                Err(e) => r is Err && r->Err_0@ == e,
            },
    {
        let i = self.rooms.get_id("Room", "Room default", n.as_str())?;
        Ok(RoomId(i))
    }

    pub fn room_variant(&self, n: &Title, v: &Option<Identifier>) -> (r: Result<Option<RoomVariantId>, Application>)
        requires
            self.wf(),
        ensures
            match room_variant_ref(self.lookups(), n@, crate::config::section::opt_id_view(*v)) {
                Ok(i) => r == Ok::<Option<RoomVariantId>, Application>(i),
                Err(e) => r is Err && r->Err_0@ == e,
            },
    {
        let vs = match v {
            Some(x) => Some(x.as_str()),
            None => None,
        };
        match self.rooms.get_variant_id("Room", n.as_str(), vs)? {
            Some(i) => Ok(Some(RoomVariantId(i))),
            None => Ok(None),
        }
    }

    pub fn dialogue(&self, n: &Identifier) -> (r: Result<DialogueId, Application>)
        requires
            self.wf(),
        ensures
            match dialogue_ref(self.lookups(), n@) {
                Ok(i) => r == Ok::<DialogueId, Application>(i),
                Err(e) => r is Err && r->Err_0@ == e,
            },
    {
        let i = self.dialogues.get_id("Dialogue", "Dialogue default", n.as_str())?;
        Ok(DialogueId(i))
    }

    pub fn opt_item(&self, o: &Option<Identifier>) -> (r: Result<Option<ItemId>, Application>)
        ensures
            match opt_item_ref(self.lookups(), crate::config::section::opt_id_view(*o)) {
                Ok(i) => r == Ok::<Option<ItemId>, Application>(i),
                Err(e) => r is Err && r->Err_0@ == e,
            },
    {
        match o {
            None => Ok(None),
            Some(n) => Ok(Some(self.item(n)?)),
        }
    }

    pub fn items_of(&self, names: &Vec<Identifier>) -> (r: Result<Vec<ItemId>, Application>)
        ensures
            match item_refs(self.lookups(), ids_view(names@)) {
                Ok(s) => r is Ok && r->Ok_0@ == s,
                Err(e) => r is Err && r->Err_0@ == e,
            },
    {
        let ghost s = ids_view(names@);
        let ghost f = |n: Seq<char>| item_ref(self.lookups(), n);
        let mut out: Vec<ItemId> = Vec::new();
        let mut i: usize = 0;
        proof {
            lemma_fold_results_all(s, f);
        }
        while i < names.len()
            invariant
                s == ids_view(names@),
                f == (|n: Seq<char>| item_ref(self.lookups(), n)),
                i <= names@.len(),
                fold_results(s.take(i as int), f) == Ok::<Seq<ItemId>, ErrorView>(out@),
            decreases names.len() - i,
        {
            proof {
                lemma_fold_results_step(s, i as int, f);
            }
            match self.item(&names[i]) {
                Err(e) => {
                    proof {
                        lemma_fold_results_err(s, i + 1, f);
                    }
                    return Err(e);
                },
                Ok(x) => {
                    out.push(x);
                },
            }
            i += 1;
        }
        proof {
            lemma_fold_results_all(s, f);
        }
        Ok(out)
    }

    pub fn actions_of(&self, names: &Vec<Identifier>) -> (r: Result<Vec<ActionId>, Application>)
        ensures
            match action_refs(self.lookups(), ids_view(names@)) {
                Ok(s) => r is Ok && r->Ok_0@ == s,
                Err(e) => r is Err && r->Err_0@ == e,
            },
    {
        let ghost s = ids_view(names@);
        let ghost f = |n: Seq<char>| action_ref(self.lookups(), n);
        let mut out: Vec<ActionId> = Vec::new();
        let mut i: usize = 0;
        proof {
            lemma_fold_results_all(s, f);
        }
        while i < names.len()
            invariant
                s == ids_view(names@),
                f == (|n: Seq<char>| action_ref(self.lookups(), n)),
                i <= names@.len(),
                fold_results(s.take(i as int), f) == Ok::<Seq<ActionId>, ErrorView>(out@),
            decreases names.len() - i,
        {
            proof {
                lemma_fold_results_step(s, i as int, f);
            }
            match self.action(&names[i]) {
                Err(e) => {
                    proof {
                        lemma_fold_results_err(s, i + 1, f);
                    }
                    return Err(e);
                },
                Ok(x) => {
                    out.push(x);
                },
            }
            i += 1;
        }
        proof {
            lemma_fold_results_all(s, f);
        }
        Ok(out)
    }

    pub fn responses_of(&self, names: &Vec<Identifier>) -> (r: Result<Vec<ResponseId>, Application>)
        ensures
            match response_refs(self.lookups(), ids_view(names@)) {
                Ok(s) => r is Ok && r->Ok_0@ == s,
                Err(e) => r is Err && r->Err_0@ == e,
            },
    {
        let ghost s = ids_view(names@);
        let ghost f = |n: Seq<char>| response_ref(self.lookups(), n);
        let mut out: Vec<ResponseId> = Vec::new();
        let mut i: usize = 0;
        proof {
            lemma_fold_results_all(s, f);
        }
        while i < names.len()
            invariant
                s == ids_view(names@),
                f == (|n: Seq<char>| response_ref(self.lookups(), n)),
                i <= names@.len(),
                fold_results(s.take(i as int), f) == Ok::<Seq<ResponseId>, ErrorView>(out@),
            decreases names.len() - i,
        {
            proof {
                lemma_fold_results_step(s, i as int, f);
            }
            match self.response(&names[i]) {
                Err(e) => {
                    proof {
                        lemma_fold_results_err(s, i + 1, f);
                    }
                    return Err(e);
                },
                Ok(x) => {
                    out.push(x);
                },
            }
            i += 1;
        }
        proof {
            lemma_fold_results_all(s, f);
        }
        Ok(out)
    }

    pub fn characters_of(&self, names: &Vec<Title>) -> (r: Result<Vec<CharacterId>, Application>)
        ensures
            match character_refs(self.lookups(), titles_view(names@)) {
                Ok(s) => r is Ok && r->Ok_0@ == s,
                Err(e) => r is Err && r->Err_0@ == e,
            },
    {
        let ghost s = titles_view(names@);
        let ghost f = |n: Seq<char>| character_ref(self.lookups(), n);
        let mut out: Vec<CharacterId> = Vec::new();
        let mut i: usize = 0;
        proof {
            lemma_fold_results_all(s, f);
        }
        while i < names.len()
            invariant
                s == titles_view(names@),
                f == (|n: Seq<char>| character_ref(self.lookups(), n)),
                i <= names@.len(),
                fold_results(s.take(i as int), f) == Ok::<Seq<CharacterId>, ErrorView>(out@),
            decreases names.len() - i,
        {
            proof {
                lemma_fold_results_step(s, i as int, f);
            }
            match self.character(&names[i]) {
                Err(e) => {
                    proof {
                        lemma_fold_results_err(s, i + 1, f);
                    }
                    return Err(e);
                },
                Ok(x) => {
                    out.push(x);
                },
            }
            i += 1;
        }
        proof {
            lemma_fold_results_all(s, f);
        }
        Ok(out)
    }

    /// A requirement with its names turned into indices.
    pub fn requirement(&self, raw: &RequirementRaw) -> (r: Result<Requirement, Application>)
        requires
            self.wf(),
        ensures
            match requirement_ref(self.lookups(), requirement_raw_view(*raw)) {
                Ok(q) => r == Ok::<Requirement, Application>(q),
                Err(e) => r is Err && r->Err_0@ == e,
            },
    {
        match raw {
            RequirementRaw::HasItem(n) => Ok(Requirement::HasItem(self.item(n)?)),
            RequirementRaw::RoomVariant(n, v) => {
                let room = self.room(n)?;
                let variant = self.room_variant(n, v)?;
                Ok(Requirement::RoomVariant(room, variant))
            },
            RequirementRaw::DoesNotHave(n) => Ok(Requirement::DoesNotHave(self.item(n)?)),
        }
    }

    pub fn requirements(&self, raws: &Vec<RequirementRaw>) -> (r: Result<Vec<Requirement>, Application>)
        requires
            self.wf(),
        ensures
            match requirement_refs(self.lookups(), requirements_raw_view(raws@)) {
                Ok(s) => r is Ok && r->Ok_0@ == s,
                Err(e) => r is Err && r->Err_0@ == e,
            },
    {
        let ghost s = requirements_raw_view(raws@);
        let ghost f = |q: RequirementText| requirement_ref(self.lookups(), q);
        let mut out: Vec<Requirement> = Vec::new();
        let mut i: usize = 0;
        proof {
            lemma_fold_results_all(s, f);
        }
        while i < raws.len()
            invariant
                self.wf(),
                s == requirements_raw_view(raws@),
                f == (|q: RequirementText| requirement_ref(self.lookups(), q)),
                i <= raws@.len(),
                fold_results(s.take(i as int), f) == Ok::<Seq<Requirement>, ErrorView>(out@),
            decreases raws.len() - i,
        {
            proof {
                lemma_fold_results_step(s, i as int, f);
            }
            match self.requirement(&raws[i]) {
                Err(e) => {
                    proof {
                        lemma_fold_results_err(s, i + 1, f);
                    }
                    return Err(e);
                },
                Ok(x) => {
                    out.push(x);
                },
            }
            i += 1;
        }
        proof {
            lemma_fold_results_all(s, f);
        }
        Ok(out)
    }

    /// The exit table with its rooms turned into indices.
    pub fn exits(&self, raw: &IndexMap<Identifier, Title>) -> (r: Result<IndexMap<Identifier, crate::ids::RoomId>, Application>)
        requires
            self.wf(),
        ensures
            match exits_ref(self.lookups(), raw_exit_entries(*raw)) {
                Ok(s) => r is Ok && exit_entries(r->Ok_0) == s,
                Err(e) => r is Err && r->Err_0@ == e,
            },
    {
        let ghost s = raw_exit_entries(*raw);
        let ghost f = |x: (Seq<char>, Seq<char>)| exit_ref(self.lookups(), x);
        let ghost mut pairs: Seq<(Seq<char>, usize)> = Seq::empty();
        let mut out = new_exits();
        let n = raw_exits_len(raw);
        let mut i: usize = 0;
        proof {
            lemma_fold_results_all(s, f);
        }
        while i < n
            invariant
                self.wf(),
                s == raw_exit_entries(*raw),
                n == s.len(),
                f == (|x: (Seq<char>, Seq<char>)| exit_ref(self.lookups(), x)),
                i <= n,
                fold_results(s.take(i as int), f) == Ok::<Seq<(Seq<char>, usize)>, ErrorView>(pairs),
                exit_entries(out) == inserted_all(pairs),
            decreases n - i,
        {
            proof {
                lemma_fold_results_step(s, i as int, f);
            }
            let (direction, room) = match raw_exit_at(raw, i) {
                Some(p) => p,
                None => {
                    return Err(Application::EntityDataIncomplete(text::owned("Room")));
                },
            };
            match self.room(room) {
                Err(e) => {
                    proof {
                        lemma_fold_results_err(s, i + 1, f);
                    }
                    return Err(e);
                },
                Ok(id) => {
                    let ghost x = (direction@, id.0);
                    insert_exit(&mut out, direction.clone(), id);
                    proof {
                        let old_pairs = pairs;
                        pairs = pairs.push(x);
                        assert(pairs.drop_last() == old_pairs);
                    }
                },
            }
            i += 1;
        }
        proof {
            lemma_fold_results_all(s, f);
        }
        Ok(out)
    }
}

} // verus!
