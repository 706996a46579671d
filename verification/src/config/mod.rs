//! Reading a game world from an ini document.

pub mod action;
pub mod character;
pub mod consistency;
pub mod dialogue;
pub mod ids;
pub mod ini_doc;
pub mod item;
pub mod iter;
pub mod preprocessor;
pub mod requirement;
pub mod resolve;
pub mod response;
pub mod room;
pub mod section;
pub mod title;

use vstd::prelude::*;

use crate::config::action::{action_raw_view, actions_of, actions_raw_view, parse_actions, ActionText};
use crate::config::character::{characters_of, characters_raw_view, parse_characters};
use crate::config::dialogue::{dialogue_raw_view, dialogues_of, dialogues_raw_view, parse_dialogues, DialogueText};
use crate::config::ids::{keys_of, map_ids, variant_index_at, NameIndex, VariantKey};
use crate::config::consistency::{dialogue_keys, room_keys};
use crate::config::ini_doc::{IniDoc, IniModel};
use crate::config::item::{items_of, items_view, parse_items};
use crate::config::iter::{fold_results, lemma_fold_results_all, lemma_fold_results_err, lemma_fold_results_step};
use crate::config::resolve::{
    action_entity_view, action_ref_of, character_entity_view, character_ref_of, dialogue_variant_ref_of,
    dialogue_variant_view, group_dialogues, group_rooms, response_entity_view, response_ref_of, room_ref,
    room_variant_ref_of, room_variant_view, ActionModel, DialogueVariantModel, Lookups, Resolver, ResponseModel,
    RoomVariantModel, filled, placed, slotted_dialogues, slotted_rooms,
};
use crate::config::response::{parse_responses, response_raw_view, responses_of, responses_raw_view, ResponseText};
use crate::config::room::{parse_rooms, room_raw_view, rooms_of, rooms_raw_view, RoomText};
use crate::config::section::{section_named, EntitySection};
use crate::config::title::{language_of, language_view, parse_language, parse_theme, parse_title, theme_of, theme_view, title_of};
use crate::entity::{
    ActionEntity, ActionRaw, ChangeRoom, CharacterEntity, CharacterRaw, DialogueRaw, DialogueVariantEntity, GameTitle,
    GiveItem, ReplaceItem, ResponseEntity, ResponseRaw, RoomRaw, RoomVariantEntity, Sequence, TakeItem, Teleport,
};
use crate::error::{Application, ErrorView};
use crate::ids::{DialogueId, RoomId};
use crate::text::{self, opt_string_view, split_once, texts_view};
use crate::world::{is_sequence, World};
use crate::exits::exit_entries;

verus! {

// ---------------------------------------------------------------- section kinds

/// The kind written before the first `:` of a section name, untrimmed.
pub open spec fn kind_prefix(name: Seq<char>) -> Seq<char> {
    split_once(name, ':').0
}

/// The kind of the first section among the first `n` whose kind is not known.
pub open spec fn unknown_section(d: IniModel, n: int) -> Option<Seq<char>>
    decreases n,
{
    if n <= 0 {
        None
    } else {
        match unknown_section(d, n - 1) {
            Some(k) => Some(k),
            None => match d[n - 1].0 {
                None => None,
                Some(name) => if section_named(kind_prefix(name)) is None {
                    Some(kind_prefix(name))
                } else {
                    None
                },
            },
        }
    }
}

pub proof fn lemma_unknown_section_found(d: IniModel, i: int, n: int)
    requires
        0 <= i <= n,
        unknown_section(d, i) is Some,
    ensures
        unknown_section(d, n) == unknown_section(d, i),
    decreases n - i,
{
    if n > i {
        lemma_unknown_section_found(d, i, n - 1);
    }
}

/// Checks that every section is of a known kind; the first one that is not gives
/// `UnknownSectionFound` with its kind.
pub fn validate_section_types(doc: &IniDoc) -> (r: Result<(), Application>)
    ensures
        match unknown_section(doc@, doc@.len() as int) {
            None => r is Ok,
            Some(k) => r is Err && r->Err_0@ == ErrorView::UnknownSectionFound(k),
        },
{
    let mut i: usize = 0;
    while i < doc.sections.len()
        invariant
            i <= doc@.len(),
            unknown_section(doc@, i as int) is None,
        decreases doc.sections.len() - i,
    {
        let sec = &doc.sections[i];
        assert(doc@[i as int] == sec@);
        if let Some(name) = &sec.name {
            let (prefix, _) = text::split_once_at(name.as_str(), ':');
            if EntitySection::from_text(prefix.as_str()).is_none() {
                proof {
                    lemma_unknown_section_found(doc@, i + 1, doc@.len() as int);
                }
                return Err(Application::UnknownSectionFound(prefix));
            }
        }
        i += 1;
    }
    Ok(())
}

// ---------------------------------------------------------------- the world as values

/// A world as values: the title screen (with the index of the first room), theme,
/// language and the tables of entities.
pub struct WorldModel {
    pub title: (Seq<char>, Seq<char>, Seq<char>, RoomId),
    pub theme: Seq<(u8, u8, u8)>,
    pub language: Seq<Seq<char>>,
    pub items: Seq<(Seq<char>, Seq<char>)>,
    pub actions: Seq<ActionModel>,
    pub rooms: Seq<Seq<RoomVariantModel>>,
    pub dialogues: Seq<Seq<DialogueVariantModel>>,
    pub characters: Seq<(Seq<char>, DialogueId)>,
    pub responses: Seq<ResponseModel>,
}

pub open spec fn world_view(w: World) -> WorldModel {
    WorldModel {
        title: (w.title.title@, w.title.greeting@, w.title.credits@, w.title.start_room),
        theme: theme_view(*w.theme),
        language: language_view(*w.language),
        items: items_view(w.items@),
        actions: w.actions@.map_values(|a: ActionEntity| action_entity_view(a)),
        rooms: w.rooms@.map_values(|r: Vec<RoomVariantEntity>| r@.map_values(|v: RoomVariantEntity| room_variant_view(v))),
        dialogues: w.dialogues@.map_values(
            |d: Vec<DialogueVariantEntity>| d@.map_values(|v: DialogueVariantEntity| dialogue_variant_view(v)),
        ),
        characters: w.characters@.map_values(|c: CharacterEntity| character_entity_view(c)),
        responses: w.responses@.map_values(|r: ResponseEntity| response_entity_view(r)),
    }
}

/// A requirement whose item or room exists.
pub open spec fn model_requirement_ok(m: WorldModel, q: crate::entity::Requirement) -> bool {
    match q {
        crate::entity::Requirement::HasItem(i) => i.0 < m.items.len(),
        crate::entity::Requirement::DoesNotHave(i) => i.0 < m.items.len(),
        crate::entity::Requirement::RoomVariant(r, v) => r.0 < m.rooms.len() && (v matches Some(x) ==> x.0
            < m.rooms[r.0 as int].len()),
    }
}

pub open spec fn model_requirements_ok(m: WorldModel, s: Seq<crate::entity::Requirement>) -> bool {
    forall|k: int| 0 <= k < s.len() ==> model_requirement_ok(m, #[trigger] s[k])
}

pub open spec fn model_items_ok(m: WorldModel, s: Seq<crate::ids::ItemId>) -> bool {
    forall|k: int| 0 <= k < s.len() ==> (#[trigger] s[k]).0 < m.items.len()
}

pub open spec fn model_opt_item_ok(m: WorldModel, o: Option<crate::ids::ItemId>) -> bool {
    o matches Some(i) ==> i.0 < m.items.len()
}

/// An action whose items, rooms, variants and actions exist; a sequence holds no sequence.
pub open spec fn model_action_ok(m: WorldModel, a: ActionModel) -> bool {
    match a {
        ActionModel::ChangeRoom { required, room, variant, .. } => {
            &&& model_opt_item_ok(m, required)
            &&& room.0 < m.rooms.len()
            &&& variant matches Some(v) ==> v.0 < m.rooms[room.0 as int].len()
        },
        ActionModel::GiveItem { required, items, .. } => model_opt_item_ok(m, required) && model_items_ok(m, items),
        ActionModel::ReplaceItem { original, replacement, .. } => original.0 < m.items.len() && replacement.0
            < m.items.len(),
        ActionModel::TakeItem { items, .. } => model_items_ok(m, items),
        ActionModel::Teleport { required, room, .. } => model_opt_item_ok(m, required) && room.0 < m.rooms.len(),
        ActionModel::Sequence { required, actions, .. } => {
            &&& model_opt_item_ok(m, required)
            &&& forall|k: int|
                0 <= k < actions.len() ==> {
                    &&& (#[trigger] actions[k]).0 < m.actions.len()
                    &&& !(m.actions[actions[k].0 as int] is Sequence)
                }
        },
    }
}

/// A room variant whose characters, actions and exit rooms exist.
pub open spec fn model_room_variant_ok(m: WorldModel, v: RoomVariantModel) -> bool {
    &&& forall|k: int| 0 <= k < v.characters.len() ==> (#[trigger] v.characters[k]).0 < m.characters.len()
    &&& forall|k: int| 0 <= k < v.actions.len() ==> (#[trigger] v.actions[k]).0 < m.actions.len()
    &&& forall|k: int| 0 <= k < v.exits.len() ==> (#[trigger] v.exits[k]).1 < m.rooms.len()
}

/// A dialogue variant whose responses and requirements exist.
pub open spec fn model_dialogue_variant_ok(m: WorldModel, v: DialogueVariantModel) -> bool {
    &&& forall|k: int| 0 <= k < v.responses.len() ==> (#[trigger] v.responses[k]).0 < m.responses.len()
    &&& model_requirements_ok(m, v.requires)
}

/// A response whose next dialogue, action and requirements exist.
pub open spec fn model_response_ok(m: WorldModel, r: ResponseModel) -> bool {
    &&& r.leads_to matches Some(d) ==> d.0 < m.dialogues.len()
    &&& r.triggers matches Some(a) ==> a.0 < m.actions.len()
    &&& model_requirements_ok(m, r.requires)
}

/// A world whose references line up: the start room and every index held anywhere
/// exist, every room and dialogue has a variant, and no action sequence holds another
/// sequence. Play runs only in such a world.
pub open spec fn model_lines_up(m: WorldModel) -> bool {
    &&& m.title.3.0 < m.rooms.len()
    &&& forall|r: int| 0 <= r < m.rooms.len() ==> #[trigger] m.rooms[r].len() > 0
    &&& forall|r: int, v: int|
        0 <= r < m.rooms.len() && 0 <= v < m.rooms[r].len() ==> model_room_variant_ok(m, #[trigger] m.rooms[r][v])
    &&& forall|a: int| 0 <= a < m.actions.len() ==> model_action_ok(m, #[trigger] m.actions[a])
    &&& forall|d: int| 0 <= d < m.dialogues.len() ==> #[trigger] m.dialogues[d].len() > 0
    &&& forall|d: int, v: int|
        0 <= d < m.dialogues.len() && 0 <= v < m.dialogues[d].len() ==> model_dialogue_variant_ok(
            m,
            #[trigger] m.dialogues[d][v],
        )
    &&& forall|c: int| 0 <= c < m.characters.len() ==> (#[trigger] m.characters[c]).1.0 < m.dialogues.len()
    &&& forall|r: int| 0 <= r < m.responses.len() ==> model_response_ok(m, #[trigger] m.responses[r])
}

/// A world is well formed exactly when its model lines up.
pub proof fn lemma_world_view_lines_up(w: World)
    ensures
        w.wf() <==> model_lines_up(world_view(w)),
{
    let m = world_view(w);
    assert(m.rooms.len() == w.rooms@.len());
    assert(m.items.len() == w.items@.len());
    assert(m.actions.len() == w.actions@.len());
    assert(m.dialogues.len() == w.dialogues@.len());
    assert(m.characters.len() == w.characters@.len());
    assert(m.responses.len() == w.responses@.len());
    assert forall|r: int| 0 <= r < m.rooms.len() implies #[trigger] m.rooms[r].len() == w.rooms@[r]@.len() by {}
    assert forall|d: int| 0 <= d < m.dialogues.len() implies #[trigger] m.dialogues[d].len() == w.dialogues@[d]@.len() by {}
    assert forall|a: int| 0 <= a < m.actions.len() implies (#[trigger] m.actions[a] is Sequence) == is_sequence(w.actions@[a]) by {}
    assert forall|r: int, v: int|
        #![trigger m.rooms[r][v]]
        #![trigger w.rooms@[r]@[v]]
        0 <= r < m.rooms.len() && 0 <= v < m.rooms[r].len() implies
        model_room_variant_ok(m, m.rooms[r][v]) == w.valid_room_variant(w.rooms@[r]@[v]) by {
        let e = w.rooms@[r]@[v];
        assert(m.rooms[r][v] == room_variant_view(e));
        assert((forall|k: int| 0 <= k < e.characters@.len() ==> w.valid_character(#[trigger] e.characters@[k]))
            == (forall|k: int| 0 <= k < e.characters@.len() ==> (#[trigger] e.characters@[k]).0 < m.characters.len()));
        assert((forall|k: int| 0 <= k < e.actions@.len() ==> w.valid_action(#[trigger] e.actions@[k]))
            == (forall|k: int| 0 <= k < e.actions@.len() ==> (#[trigger] e.actions@[k]).0 < m.actions.len()));
        assert((forall|k: int| 0 <= k < exit_entries(e.exits).len() ==> #[trigger] exit_entries(e.exits)[k].1 < w.rooms@.len())
            == (forall|k: int| 0 <= k < exit_entries(e.exits).len() ==> (#[trigger] exit_entries(e.exits)[k]).1 < m.rooms.len()));
        let mv = room_variant_view(e);
        assert(mv.characters == e.characters@ && mv.actions == e.actions@ && mv.exits == exit_entries(e.exits));
        assert(model_room_variant_ok(m, mv) == w.valid_room_variant(e));
    }
    assert forall|d: int, v: int|
        #![trigger m.dialogues[d][v]]
        #![trigger w.dialogues@[d]@[v]]
        0 <= d < m.dialogues.len() && 0 <= v < m.dialogues[d].len() implies
        model_dialogue_variant_ok(m, m.dialogues[d][v]) == w.valid_dialogue_variant(w.dialogues@[d]@[v]) by {
        let e = w.dialogues@[d]@[v];
        assert(m.dialogues[d][v] == dialogue_variant_view(e));
        assert((forall|k: int| 0 <= k < e.responses@.len() ==> w.valid_response(#[trigger] e.responses@[k]))
            == (forall|k: int| 0 <= k < e.responses@.len() ==> (#[trigger] e.responses@[k]).0 < m.responses.len()));
        assert(w.valid_requirements(e.requires@) == model_requirements_ok(m, e.requires@));
        let mv = dialogue_variant_view(e);
        assert(mv.responses == e.responses@ && mv.requires == e.requires@);
        assert(model_dialogue_variant_ok(m, mv) == w.valid_dialogue_variant(e));
    }
    assert forall|a: int|
        #![trigger m.actions[a]]
        #![trigger w.actions@[a]]
        0 <= a < m.actions.len() implies
        model_action_ok(m, m.actions[a]) == w.valid_action_entity(w.actions@[a]) by {
        assert(m.actions[a] == action_entity_view(w.actions@[a]));
    }
    assert forall|r: int|
        #![trigger m.responses[r]]
        #![trigger w.responses@[r]]
        0 <= r < m.responses.len() implies
        model_response_ok(m, m.responses[r]) == w.valid_response_entity(w.responses@[r]) by {
        assert(m.responses[r] == response_entity_view(w.responses@[r]));
    }
    assert forall|r: int| 0 <= r < w.rooms@.len() implies #[trigger] w.rooms@[r]@.len() == m.rooms[r].len() by {}
    assert forall|d: int| 0 <= d < w.dialogues@.len() implies #[trigger] w.dialogues@[d]@.len() == m.dialogues[d].len() by {}
    assert(w.valid_room(w.title.start_room) == (m.title.3.0 < m.rooms.len()));
    assert((forall|r: int| 0 <= r < w.rooms@.len() ==> #[trigger] w.rooms@[r]@.len() > 0)
        == (forall|r: int| 0 <= r < m.rooms.len() ==> #[trigger] m.rooms[r].len() > 0));
    assert((forall|d: int| 0 <= d < w.dialogues@.len() ==> #[trigger] w.dialogues@[d]@.len() > 0)
        == (forall|d: int| 0 <= d < m.dialogues.len() ==> #[trigger] m.dialogues[d].len() > 0));
    assert((forall|c: int| 0 <= c < w.characters@.len() ==> w.valid_dialogue(#[trigger] w.characters@[c].start_dialogue))
        == (forall|c: int| 0 <= c < m.characters.len() ==> (#[trigger] m.characters[c]).1.0 < m.dialogues.len())) by {
        assert forall|c: int|
            #![trigger m.characters[c]]
            #![trigger w.characters@[c]]
            0 <= c < m.characters.len() implies m.characters[c] == character_entity_view(w.characters@[c]) by {}
    }
    assert((forall|r: int, v: int|
            0 <= r < w.rooms@.len() && 0 <= v < w.rooms@[r]@.len() ==> w.valid_room_variant(#[trigger] w.rooms@[r]@[v]))
        == (forall|r: int, v: int|
            0 <= r < m.rooms.len() && 0 <= v < m.rooms[r].len() ==> model_room_variant_ok(m, #[trigger] m.rooms[r][v])));
    assert((forall|d: int, v: int|
            0 <= d < w.dialogues@.len() && 0 <= v < w.dialogues@[d]@.len() ==> w.valid_dialogue_variant(#[trigger] w.dialogues@[d]@[v]))
        == (forall|d: int, v: int|
            0 <= d < m.dialogues.len() && 0 <= v < m.dialogues[d].len() ==> model_dialogue_variant_ok(m, #[trigger] m.dialogues[d][v])));
    assert((forall|a: int| 0 <= a < w.actions@.len() ==> w.valid_action_entity(#[trigger] w.actions@[a]))
        == (forall|a: int| 0 <= a < m.actions.len() ==> model_action_ok(m, #[trigger] m.actions[a])));
    assert((forall|r: int| 0 <= r < w.responses@.len() ==> w.valid_response_entity(#[trigger] w.responses@[r]))
        == (forall|r: int| 0 <= r < m.responses.len() ==> model_response_ok(m, #[trigger] m.responses[r])));
}

pub open spec fn action_text_name(a: ActionText) -> Seq<char> {
    match a {
        ActionText::ChangeRoom { name, .. } => name,
        ActionText::GiveItem { name, .. } => name,
        ActionText::ReplaceItem { name, .. } => name,
        ActionText::TakeItem { name, .. } => name,
        ActionText::Teleport { name, .. } => name,
        ActionText::Sequence { name, .. } => name,
    }
}

pub open spec fn action_model_name(a: ActionModel) -> Seq<char> {
    match a {
        ActionModel::ChangeRoom { name, .. } => name,
        ActionModel::GiveItem { name, .. } => name,
        ActionModel::ReplaceItem { name, .. } => name,
        ActionModel::TakeItem { name, .. } => name,
        ActionModel::Teleport { name, .. } => name,
        ActionModel::Sequence { name, .. } => name,
    }
}

/// The names that references are resolved against.
pub open spec fn lookups_from(
    characters: Seq<(Seq<char>, Seq<char>)>,
    items: Seq<(Seq<char>, Seq<char>)>,
    actions: Seq<ActionText>,
    responses: Seq<ResponseText>,
    rooms: Seq<RoomText>,
    dialogues: Seq<DialogueText>,
) -> Lookups {
    Lookups {
        items: items.map_values(|i: (Seq<char>, Seq<char>)| i.0),
        actions: actions.map_values(|a: ActionText| action_text_name(a)),
        responses: responses.map_values(|r: ResponseText| r.name),
        characters: characters.map_values(|c: (Seq<char>, Seq<char>)| c.0),
        rooms: rooms.map_values(|r: RoomText| (r.name, r.variant)),
        dialogues: dialogues.map_values(|d: DialogueText| (d.name, d.variant)),
    }
}

// ---------------------------------------------------------------- action sequences

/// Whether `id` is the index of an action sequence.
pub open spec fn is_sequence_at(actions: Seq<ActionModel>, id: usize) -> bool {
    id < actions.len() && actions[id as int] is Sequence
}

/// The name of the first action among `ids` that is a sequence.
pub open spec fn first_sequence_child(actions: Seq<ActionModel>, ids: Seq<crate::ids::ActionId>) -> Option<Seq<char>>
    decreases ids.len(),
{
    if ids.len() == 0 {
        None
    } else if is_sequence_at(actions, ids[0].0) {
        Some(action_model_name(actions[ids[0].0 as int]))
    } else {
        first_sequence_child(actions, ids.drop_first())
    }
}

/// The first sequence among the first `n` actions that holds another sequence: its name
/// and the name of the sequence it holds.
pub open spec fn first_nested_sequence(actions: Seq<ActionModel>, n: int) -> Option<(Seq<char>, Seq<char>)>
    decreases n,
{
    if n <= 0 {
        None
    } else {
        match first_nested_sequence(actions, n - 1) {
            Some(x) => Some(x),
            None => match actions[n - 1] {
                ActionModel::Sequence { name, actions: ids, .. } => match first_sequence_child(actions, ids) {
                    Some(c) => Some((name, c)),
                    None => None,
                },
                _ => None,
            },
        }
    }
}

// ---------------------------------------------------------------- the whole document

/// The world that the resolved parts make, or the first error of resolving them.
pub open spec fn resolve_spec(
    title: (Seq<char>, Seq<char>, Seq<char>, Seq<char>),
    theme: Seq<(u8, u8, u8)>,
    language: Seq<Seq<char>>,
    characters: Seq<(Seq<char>, Seq<char>)>,
    items: Seq<(Seq<char>, Seq<char>)>,
    actions: Seq<ActionText>,
    responses: Seq<ResponseText>,
    rooms: Seq<RoomText>,
    dialogues: Seq<DialogueText>,
) -> Result<WorldModel, ErrorView> {
    let l = lookups_from(characters, items, actions, responses, rooms, dialogues);
    match room_ref(l, title.3) {
        Err(e) => Err(e),
        Ok(start) => match fold_results(characters, |c: (Seq<char>, Seq<char>)| character_ref_of(l, c)) {
            Err(e) => Err(e),
            Ok(cs) => match fold_results(actions, |a: ActionText| action_ref_of(l, a)) {
                Err(e) => Err(e),
                Ok(acts) => match fold_results(responses, |r: ResponseText| response_ref_of(l, r)) {
                    Err(e) => Err(e),
                    Ok(rs) => match group_rooms(l, rooms) {
                        Err(e) => Err(e),
                        Ok(rms) => match group_dialogues(l, dialogues) {
                            Err(e) => Err(e),
                            Ok(ds) => match first_nested_sequence(acts, acts.len() as int) {
                                Some(pc) => Err(ErrorView::CircularReferenceFound {
                                    etype: "ActionSequence"@,
                                    parent_id: pc.0,
                                    child_id: pc.1,
                                }),
                                None => Ok(WorldModel {
                                    title: (title.0, title.1, title.2, start),
                                    theme,
                                    language,
                                    items,
                                    actions: acts,
                                    rooms: rms,
                                    dialogues: ds,
                                    characters: cs,
                                    responses: rs,
                                }),
                            },
                        },
                    },
                },
            },
        },
    }
}

/// The world a document describes, or the first error: unknown section kinds first,
/// then the title screen, theme, language, characters, items, actions, responses, rooms
/// and dialogues as read, then the references between them.
pub open spec fn parse_spec(d: IniModel) -> Result<WorldModel, ErrorView> {
    match unknown_section(d, d.len() as int) {
        Some(k) => Err(ErrorView::UnknownSectionFound(k)),
        None => match title_of(d) {
            Err(e) => Err(e),
            Ok(t) => match theme_of(d) {
                Err(e) => Err(e),
                Ok(th) => match language_of(d) {
                    Err(e) => Err(e),
                    Ok(lang) => match characters_of(d) {
                        Err(e) => Err(e),
                        Ok(cs) => match items_of(d) {
                            Err(e) => Err(e),
                            Ok(its) => match actions_of(d) {
                                Err(e) => Err(e),
                                Ok(acts) => match responses_of(d) {
                                    Err(e) => Err(e),
                                    Ok(rsp) => match rooms_of(d) {
                                        Err(e) => Err(e),
                                        Ok(rms) => match dialogues_of(d) {
                                            Err(e) => Err(e),
                                            Ok(dls) => resolve_spec(t, th, lang, cs, its, acts, rsp, rms, dls),
                                        },
                                    },
                                },
                            },
                        },
                    },
                },
            },
        },
    }
}

} // verus!

verus! {

pub open spec fn characters_entity_view(v: Seq<CharacterEntity>) -> Seq<(Seq<char>, DialogueId)> {
    v.map_values(|c: CharacterEntity| character_entity_view(c))
}

pub open spec fn actions_entity_view(v: Seq<ActionEntity>) -> Seq<ActionModel> {
    v.map_values(|a: ActionEntity| action_entity_view(a))
}

pub open spec fn responses_entity_view(v: Seq<ResponseEntity>) -> Seq<ResponseModel> {
    v.map_values(|r: ResponseEntity| response_entity_view(r))
}

pub open spec fn rooms_entity_view(v: Seq<Vec<RoomVariantEntity>>) -> Seq<Seq<RoomVariantModel>> {
    v.map_values(|r: Vec<RoomVariantEntity>| r@.map_values(|x: RoomVariantEntity| room_variant_view(x)))
}

pub open spec fn dialogues_entity_view(v: Seq<Vec<DialogueVariantEntity>>) -> Seq<Seq<DialogueVariantModel>> {
    v.map_values(|d: Vec<DialogueVariantEntity>| d@.map_values(|x: DialogueVariantEntity| dialogue_variant_view(x)))
}

/// Each character with its first dialogue turned into an index.
fn resolve_characters(res: &Resolver, raws: &Vec<CharacterRaw>) -> (r: Result<Vec<CharacterEntity>, Application>)
    requires
        res.wf(),
    ensures
        match fold_results(characters_raw_view(raws@), |c: (Seq<char>, Seq<char>)| character_ref_of(res.lookups(), c)) {
            Ok(s) => r is Ok && characters_entity_view(r->Ok_0@) == s,
            Err(e) => r is Err && r->Err_0@ == e,
        },
{
    let ghost s = characters_raw_view(raws@);
    let ghost f = |c: (Seq<char>, Seq<char>)| character_ref_of(res.lookups(), c);
    let mut out: Vec<CharacterEntity> = Vec::new();
    let mut i: usize = 0;
    proof {
        lemma_fold_results_all(s, f);
    }
    assert(characters_entity_view(out@) =~= Seq::<(Seq<char>, DialogueId)>::empty());
    while i < raws.len()
        invariant
            res.wf(),
            s == characters_raw_view(raws@),
            f == (|c: (Seq<char>, Seq<char>)| character_ref_of(res.lookups(), c)),
            i <= raws@.len(),
            fold_results(s.take(i as int), f) == Ok::<Seq<(Seq<char>, DialogueId)>, ErrorView>(characters_entity_view(out@)),
        decreases raws.len() - i,
    {
        proof {
            lemma_fold_results_step(s, i as int, f);
        }
        let raw = &raws[i];
        match res.dialogue(&raw.start_dialogue) {
            Err(e) => {
                proof {
                    lemma_fold_results_err(s, i + 1, f);
                }
                return Err(e);
            },
            Ok(d) => {
                let ghost before = characters_entity_view(out@);
                let c = CharacterEntity { name: raw.name.to_string(), start_dialogue: d };
                out.push(c);
                assert(characters_entity_view(out@) =~= before.push(character_entity_view(c)));
            },
        }
        i += 1;
    }
    proof {
        lemma_fold_results_all(s, f);
    }
    Ok(out)
}

/// An action with its names turned into indices.
fn resolve_action(res: &Resolver, raw: &ActionRaw) -> (r: Result<ActionEntity, Application>)
    requires
        res.wf(),
    ensures
        match action_ref_of(res.lookups(), action_raw_view(*raw)) {
            Ok(x) => r is Ok && action_entity_view(r->Ok_0) == x,
            Err(e) => r is Err && r->Err_0@ == e,
        },
{
    match raw {
        ActionRaw::ChangeRoom(c) => {
            let required = res.opt_item(&c.required)?;
            let room = res.room(&c.room)?;
            let variant = res.room_variant(&c.room, &c.variant)?;
            Ok(ActionEntity::ChangeRoom(ChangeRoom {
                name: c.name.to_string(),
                description: c.description.clone(),
                required,
                room,
                variant,
            }))
        },
        ActionRaw::GiveItem(g) => {
            let required = res.opt_item(&g.required)?;
            let items = res.items_of(&g.items)?;
            Ok(ActionEntity::GiveItem(GiveItem {
                name: g.name.to_string(),
                description: g.description.clone(),
                required,
                items,
            }))
        },
        ActionRaw::ReplaceItem(x) => {
            let original = res.item(&x.original)?;
            let replacement = res.item(&x.replacement)?;
            Ok(ActionEntity::ReplaceItem(ReplaceItem {
                name: x.name.to_string(),
                description: x.description.clone(),
                original,
                replacement,
            }))
        },
        ActionRaw::TakeItem(t) => {
            let items = res.items_of(&t.items)?;
            Ok(ActionEntity::TakeItem(TakeItem { name: t.name.to_string(), description: t.description.clone(), items }))
        },
        ActionRaw::Teleport(t) => {
            let required = res.opt_item(&t.required)?;
            let room = res.room(&t.room)?;
            Ok(ActionEntity::Teleport(Teleport {
                name: t.name.to_string(),
                description: t.description.clone(),
                required,
                room,
            }))
        },
        ActionRaw::Sequence(s) => {
            let required = res.opt_item(&s.required)?;
            let actions = res.actions_of(&s.actions)?;
            Ok(ActionEntity::Sequence(Sequence {
                name: s.name.to_string(),
                description: s.description.clone(),
                required,
                actions,
            }))
        },
    }
}

fn resolve_actions(res: &Resolver, raws: &Vec<ActionRaw>) -> (r: Result<Vec<ActionEntity>, Application>)
    requires
        res.wf(),
    ensures
        match fold_results(actions_raw_view(raws@), |a: ActionText| action_ref_of(res.lookups(), a)) {
            Ok(s) => r is Ok && actions_entity_view(r->Ok_0@) == s,
            Err(e) => r is Err && r->Err_0@ == e,
        },
{
    let ghost s = actions_raw_view(raws@);
    let ghost f = |a: ActionText| action_ref_of(res.lookups(), a);
    let mut out: Vec<ActionEntity> = Vec::new();
    let mut i: usize = 0;
    proof {
        lemma_fold_results_all(s, f);
    }
    assert(actions_entity_view(out@) =~= Seq::<ActionModel>::empty());
    while i < raws.len()
        invariant
            res.wf(),
            s == actions_raw_view(raws@),
            f == (|a: ActionText| action_ref_of(res.lookups(), a)),
            i <= raws@.len(),
            fold_results(s.take(i as int), f) == Ok::<Seq<ActionModel>, ErrorView>(actions_entity_view(out@)),
        decreases raws.len() - i,
    {
        proof {
            lemma_fold_results_step(s, i as int, f);
        }
        match resolve_action(res, &raws[i]) {
            Err(e) => {
                proof {
                    lemma_fold_results_err(s, i + 1, f);
                }
                return Err(e);
            },
            Ok(a) => {
                let ghost before = actions_entity_view(out@);
                out.push(a);
                assert(actions_entity_view(out@) =~= before.push(action_entity_view(a)));
            },
        }
        i += 1;
    }
    proof {
        lemma_fold_results_all(s, f);
    }
    Ok(out)
}

/// A response with its names turned into indices.
fn resolve_response(res: &Resolver, raw: &ResponseRaw) -> (r: Result<ResponseEntity, Application>)
    requires
        res.wf(),
    ensures
        match response_ref_of(res.lookups(), response_raw_view(*raw)) {
            Ok(x) => r is Ok && response_entity_view(r->Ok_0) == x,
            Err(e) => r is Err && r->Err_0@ == e,
        },
{
    let leads_to = match &raw.leads_to {
        None => None,
        Some(d) => Some(res.dialogue(d)?),
    };
    let triggers = match &raw.triggers {
        None => None,
        Some(a) => Some(res.action(a)?),
    };
    let reqs = res.requirements(&raw.requires)?;
    Ok(ResponseEntity { text: raw.text.clone(), leads_to, triggers, requires: reqs })
}

fn resolve_responses(res: &Resolver, raws: &Vec<ResponseRaw>) -> (r: Result<Vec<ResponseEntity>, Application>)
    requires
        res.wf(),
    ensures
        match fold_results(responses_raw_view(raws@), |x: ResponseText| response_ref_of(res.lookups(), x)) {
            Ok(s) => r is Ok && responses_entity_view(r->Ok_0@) == s,
            Err(e) => r is Err && r->Err_0@ == e,
        },
{
    let ghost s = responses_raw_view(raws@);
    let ghost f = |x: ResponseText| response_ref_of(res.lookups(), x);
    let mut out: Vec<ResponseEntity> = Vec::new();
    let mut i: usize = 0;
    proof {
        lemma_fold_results_all(s, f);
    }
    assert(responses_entity_view(out@) =~= Seq::<ResponseModel>::empty());
    while i < raws.len()
        invariant
            res.wf(),
            s == responses_raw_view(raws@),
            f == (|x: ResponseText| response_ref_of(res.lookups(), x)),
            i <= raws@.len(),
            fold_results(s.take(i as int), f) == Ok::<Seq<ResponseModel>, ErrorView>(responses_entity_view(out@)),
        decreases raws.len() - i,
    {
        proof {
            lemma_fold_results_step(s, i as int, f);
        }
        match resolve_response(res, &raws[i]) {
            Err(e) => {
                proof {
                    lemma_fold_results_err(s, i + 1, f);
                }
                return Err(e);
            },
            Ok(x) => {
                let ghost before = responses_entity_view(out@);
                out.push(x);
                assert(responses_entity_view(out@) =~= before.push(response_entity_view(x)));
            },
        }
        i += 1;
    }
    proof {
        lemma_fold_results_all(s, f);
    }
    Ok(out)
}

/// A room variant with its names turned into indices.
fn resolve_room_variant(res: &Resolver, raw: &RoomRaw) -> (r: Result<RoomVariantEntity, Application>)
    requires
        res.wf(),
    ensures
        match room_variant_ref_of(res.lookups(), room_raw_view(*raw)) {
            Ok(x) => r is Ok && room_variant_view(r->Ok_0) == x,
            Err(e) => r is Err && r->Err_0@ == e,
        },
{
    let characters = res.characters_of(&raw.characters)?;
    let exits = res.exits(&raw.exits)?;
    let actions = res.actions_of(&raw.actions)?;
    Ok(RoomVariantEntity {
        name: raw.name.to_string(),
        description: raw.description.clone(),
        characters,
        exits,
        actions,
    })
}

/// A dialogue variant with its names turned into indices.
fn resolve_dialogue_variant(res: &Resolver, raw: &DialogueRaw) -> (r: Result<DialogueVariantEntity, Application>)
    requires
        res.wf(),
    ensures
        match dialogue_variant_ref_of(res.lookups(), dialogue_raw_view(*raw)) {
            Ok(x) => r is Ok && dialogue_variant_view(r->Ok_0) == x,
            Err(e) => r is Err && r->Err_0@ == e,
        },
{
    let responses = res.responses_of(&raw.responses)?;
    let reqs = res.requirements(&raw.requires)?;
    Ok(DialogueVariantEntity { text: raw.text.clone(), responses, requires: reqs })
}

/// The slots of groups, each value seen through `f`.
pub open spec fn slots_view<T, V>(s: Seq<Vec<Option<T>>>, f: spec_fn(T) -> V) -> Seq<Seq<Option<V>>> {
    s.map_values(|g: Vec<Option<T>>| slot_view(g@, f))
}

pub open spec fn slot_view<T, V>(g: Seq<Option<T>>, f: spec_fn(T) -> V) -> Seq<Option<V>> {
    g.map_values(|o: Option<T>| match o {
        Some(x) => Some(f(x)),
        None => None,
    })
}

/// Puts `v` in slot `vid` of group `id` (`placed`), adding empty groups and slots first.
fn place_slot<T, V>(slots: &mut Vec<Vec<Option<T>>>, id: usize, vid: usize, v: T, Ghost(f): Ghost<spec_fn(T) -> V>)
    ensures
        slots_view(final(slots)@, f) == placed(slots_view(old(slots)@, f), id as int, vid as int, f(v)),
{
    let ghost s0 = slots_view(slots@, f);
    while slots.len() <= id
        invariant
            s0.len() <= slots@.len(),
            slots@.len() <= s0.len() || slots@.len() <= id + 1,
            slots_view(slots@, f) =~= s0 + Seq::new((slots@.len() - s0.len()) as nat, |i: int| Seq::<Option<V>>::empty()),
        decreases id + 1 - slots.len(),
    {
        let ghost before = slots_view(slots@, f);
        let e: Vec<Option<T>> = Vec::new();
        slots.push(e);
        assert(slot_view(e@, f) =~= Seq::<Option<V>>::empty());
        assert(slots_view(slots@, f) =~= before.push(Seq::<Option<V>>::empty()));
    }
    let ghost a = slots_view(slots@, f);
    assert(a =~= if (id as int) < s0.len() {
        s0
    } else {
        s0 + Seq::new((id + 1 - s0.len()) as nat, |i: int| Seq::<Option<V>>::empty())
    });
    let mut g = slots.remove(id);
    let ghost g0 = slot_view(g@, f);
    assert(g0 == a[id as int]);
    while g.len() <= vid
        invariant
            g0.len() <= g@.len(),
            g@.len() <= g0.len() || g@.len() <= vid + 1,
            slot_view(g@, f) =~= g0 + Seq::new((g@.len() - g0.len()) as nat, |i: int| None::<V>),
        decreases vid + 1 - g.len(),
    {
        let ghost before = slot_view(g@, f);
        g.push(None);
        assert(slot_view(g@, f) =~= before.push(None::<V>));
    }
    let ghost h = slot_view(g@, f);
    assert(h =~= if (vid as int) < g0.len() { g0 } else { g0 + Seq::new((vid + 1 - g0.len()) as nat, |i: int| None::<V>) });
    let _ = g.remove(vid);
    g.insert(vid, Some(v));
    assert(slot_view(g@, f) =~= h.update(vid as int, Some(f(v))));
    let ghost before = slots@;
    slots.insert(id, g);
    assert(slots@ =~= before.insert(id as int, g));
    assert(slots_view(slots@, f) =~= a.update(id as int, h.update(vid as int, Some(f(v)))));
}

/// The values of slots that are all filled.
fn take_filled<T, V>(slots: Vec<Vec<Option<T>>>, Ghost(f): Ghost<spec_fn(T) -> V>) -> (r: Vec<Vec<T>>)
    requires
        forall|g: int, k: int| 0 <= g < slots@.len() && 0 <= k < slots@[g]@.len() ==> (#[trigger] slots@[g]@[k]) is Some,
    ensures
        r@.map_values(|g: Vec<T>| g@.map_values(|x: T| f(x))) == filled(slots_view(slots@, f)),
{
    let ghost orig = slots@;
    let mut slots = slots;
    let mut out: Vec<Vec<T>> = Vec::new();
    while slots.len() > 0
        invariant
            orig.len() == out@.len() + slots@.len(),
            slots@ == orig.skip(out@.len() as int),
            forall|g: int, k: int| 0 <= g < orig.len() && 0 <= k < orig[g]@.len() ==> (#[trigger] orig[g]@[k]) is Some,
            out@.map_values(|g: Vec<T>| g@.map_values(|x: T| f(x))) =~= filled(slots_view(orig, f)).take(out@.len() as int),
        decreases slots.len(),
    {
        let ghost done = out@.len() as int;
        let mut grp = slots.remove(0);
        assert(grp == orig[done]);
        let ghost go = grp@;
        let mut inner: Vec<T> = Vec::new();
        while grp.len() > 0
            invariant
                go.len() == inner@.len() + grp@.len(),
                grp@ == go.skip(inner@.len() as int),
                forall|k: int| 0 <= k < go.len() ==> (#[trigger] go[k]) is Some,
                inner@.map_values(|x: T| f(x)) =~= go.take(inner@.len() as int).map_values(|o: Option<T>| f(o->Some_0)),
            decreases grp.len(),
        {
            let ghost n = inner@.len() as int;
            let o = grp.remove(0);
            assert(o == go[n]);
            let ghost before = inner@;
            match o {
                Some(x) => {
                    inner.push(x);
                    assert(inner@.map_values(|x: T| f(x)) =~= before.map_values(|x: T| f(x)).push(f(x)));
                    assert(go.take(n + 1).map_values(|o: Option<T>| f(o->Some_0)) =~= go.take(n).map_values(
                        |o: Option<T>| f(o->Some_0),
                    ).push(f(go[n]->Some_0)));
                },
                None => {
                    assert(false);
                },
            }
            assert(grp@ =~= go.skip(inner@.len() as int));
            assert(go.take(inner@.len() as int) =~= go.take(n).push(go[n]));
        }
        assert(go.take(go.len() as int) =~= go);
        out.push(inner);
        assert(slots@ =~= orig.skip(out@.len() as int));
        assert(filled(slots_view(orig, f))[done] =~= go.map_values(|o: Option<T>| f(o->Some_0)));
        assert(filled(slots_view(orig, f)).take(out@.len() as int) =~= filled(slots_view(orig, f)).take(done).push(
            filled(slots_view(orig, f))[done],
        ));
    }
    assert(filled(slots_view(orig, f)).take(out@.len() as int) =~= filled(slots_view(orig, f)));
    out
}

/// The rooms: every variant resolved and put in its room's group at its variant index.
fn group_room_variants(res: &Resolver, raws: &Vec<RoomRaw>) -> (r: Result<Vec<Vec<RoomVariantEntity>>, Application>)
    requires
        res.wf(),
        res.lookups().rooms == room_keys(rooms_raw_view(raws@)),
    ensures
        match group_rooms(res.lookups(), rooms_raw_view(raws@)) {
            Ok(s) => r is Ok && rooms_entity_view(r->Ok_0@) == s,
            Err(e) => r is Err && r->Err_0@ == e,
        },
{
    let ghost s = rooms_raw_view(raws@);
    let ghost l = res.lookups();
    let ghost f = |x: RoomVariantEntity| room_variant_view(x);
    let mut slots: Vec<Vec<Option<RoomVariantEntity>>> = Vec::new();
    let mut i: usize = 0;
    assert(slots_view(slots@, f) =~= Seq::<Seq<Option<RoomVariantModel>>>::empty());
    while i < raws.len()
        invariant
            res.wf(),
            s == rooms_raw_view(raws@),
            l == res.lookups(),
            l.rooms == room_keys(s),
            f == (|x: RoomVariantEntity| room_variant_view(x)),
            i <= raws@.len(),
            slotted_rooms(l, s, i as int) == Ok::<Seq<Seq<Option<RoomVariantModel>>>, ErrorView>(slots_view(slots@, f)),
        decreases raws.len() - i,
    {
        assert(s[i as int] == room_raw_view(raws@[i as int]));
        let raw = &raws[i];
        let id = match res.room(&raw.name) {
            Ok(id) => id,
            Err(e) => {
                proof {
                    lemma_slotted_rooms_err(l, s, i + 1);
                }
                return Err(e);
            },
        };
        let v = match resolve_room_variant(res, raw) {
            Ok(v) => v,
            Err(e) => {
                proof {
                    lemma_slotted_rooms_err(l, s, i + 1);
                }
                return Err(e);
            },
        };
        assert(res.rooms.keys()[i as int] == (res.rooms.entries@[i as int].name@, opt_string_view(res.rooms.entries@[i as int].variant)));
        let vid = res.rooms.entries[i].variant_id;
        assert(vid == variant_index_at(l.rooms, i as int));
        place_slot::<RoomVariantEntity, RoomVariantModel>(&mut slots, id.0, vid, v, Ghost(f));
        i += 1;
    }
    proof {
        assert(s.len() == raws.len());
        crate::config::consistency::lemma_rooms_all_filled(l, s);
        assert forall|g: int, k: int| 0 <= g < slots@.len() && 0 <= k < slots@[g]@.len() implies (#[trigger] slots@[g]@[k]) is Some by {
            assert(slots_view(slots@, f)[g][k] is Some);
        }
    }
    let r = take_filled::<RoomVariantEntity, RoomVariantModel>(slots, Ghost(f));
    assert forall|g: int| 0 <= g < r@.len() implies (#[trigger] r@[g])@.map_values(|x: RoomVariantEntity| f(x))
        =~= r@[g]@.map_values(|x: RoomVariantEntity| room_variant_view(x)) by {}
    assert(rooms_entity_view(r@) =~= r@.map_values(|g: Vec<RoomVariantEntity>| g@.map_values(|x: RoomVariantEntity| f(x))));
    Ok(r)
}

pub proof fn lemma_slotted_rooms_err(l: Lookups, s: Seq<RoomText>, i: int)
    requires
        0 <= i <= s.len(),
        slotted_rooms(l, s, i) is Err,
    ensures
        group_rooms(l, s) is Err,
        group_rooms(l, s)->Err_0 == slotted_rooms(l, s, i)->Err_0,
    decreases s.len() - i,
{
    if i < s.len() {
        lemma_slotted_rooms_err(l, s, i + 1);
    }
}

pub proof fn lemma_slotted_dialogues_err(l: Lookups, s: Seq<DialogueText>, i: int)
    requires
        0 <= i <= s.len(),
        slotted_dialogues(l, s, i) is Err,
    ensures
        group_dialogues(l, s) is Err,
        group_dialogues(l, s)->Err_0 == slotted_dialogues(l, s, i)->Err_0,
    decreases s.len() - i,
{
    if i < s.len() {
        lemma_slotted_dialogues_err(l, s, i + 1);
    }
}

/// The dialogues: every variant resolved and put in its dialogue's group at its variant
/// index.
fn group_dialogue_variants(res: &Resolver, raws: &Vec<DialogueRaw>) -> (r: Result<Vec<Vec<DialogueVariantEntity>>, Application>)
    requires
        res.wf(),
        res.lookups().dialogues == dialogue_keys(dialogues_raw_view(raws@)),
    ensures
        match group_dialogues(res.lookups(), dialogues_raw_view(raws@)) {
            Ok(s) => r is Ok && dialogues_entity_view(r->Ok_0@) == s,
            Err(e) => r is Err && r->Err_0@ == e,
        },
{
    let ghost s = dialogues_raw_view(raws@);
    let ghost l = res.lookups();
    let ghost f = |x: DialogueVariantEntity| dialogue_variant_view(x);
    let mut slots: Vec<Vec<Option<DialogueVariantEntity>>> = Vec::new();
    let mut i: usize = 0;
    assert(slots_view(slots@, f) =~= Seq::<Seq<Option<DialogueVariantModel>>>::empty());
    while i < raws.len()
        invariant
            res.wf(),
            s == dialogues_raw_view(raws@),
            l == res.lookups(),
            l.dialogues == dialogue_keys(s),
            f == (|x: DialogueVariantEntity| dialogue_variant_view(x)),
            i <= raws@.len(),
            slotted_dialogues(l, s, i as int) == Ok::<Seq<Seq<Option<DialogueVariantModel>>>, ErrorView>(slots_view(slots@, f)),
        decreases raws.len() - i,
    {
        assert(s[i as int] == dialogue_raw_view(raws@[i as int]));
        let raw = &raws[i];
        let id = match res.dialogue(&raw.name) {
            Ok(id) => id,
            Err(e) => {
                proof {
                    lemma_slotted_dialogues_err(l, s, i + 1);
                }
                return Err(e);
            },
        };
        let v = match resolve_dialogue_variant(res, raw) {
            Ok(v) => v,
            Err(e) => {
                proof {
                    lemma_slotted_dialogues_err(l, s, i + 1);
                }
                return Err(e);
            },
        };
        assert(res.dialogues.keys()[i as int] == (res.dialogues.entries@[i as int].name@, opt_string_view(res.dialogues.entries@[i as int].variant)));
        let vid = res.dialogues.entries[i].variant_id;
        assert(vid == variant_index_at(l.dialogues, i as int));
        place_slot::<DialogueVariantEntity, DialogueVariantModel>(&mut slots, id.0, vid, v, Ghost(f));
        i += 1;
    }
    proof {
        assert(s.len() == raws.len());
        crate::config::consistency::lemma_dialogues_all_filled(l, s);
        assert forall|g: int, k: int| 0 <= g < slots@.len() && 0 <= k < slots@[g]@.len() implies (#[trigger] slots@[g]@[k]) is Some by {
            assert(slots_view(slots@, f)[g][k] is Some);
        }
    }
    let r = take_filled::<DialogueVariantEntity, DialogueVariantModel>(slots, Ghost(f));
    assert forall|g: int| 0 <= g < r@.len() implies (#[trigger] r@[g])@.map_values(|x: DialogueVariantEntity| f(x))
        =~= r@[g]@.map_values(|x: DialogueVariantEntity| dialogue_variant_view(x)) by {}
    assert(dialogues_entity_view(r@) =~= r@.map_values(
        |g: Vec<DialogueVariantEntity>| g@.map_values(|x: DialogueVariantEntity| f(x)),
    ));
    Ok(r)
}

} // verus!

verus! {

/// Rejects an action sequence that holds another sequence.
fn check_sequences(actions: &Vec<ActionEntity>) -> (r: Result<(), Application>)
    ensures
        match first_nested_sequence(actions_entity_view(actions@), actions@.len() as int) {
            None => r is Ok,
            Some(pc) => r is Err && r->Err_0@ == (ErrorView::CircularReferenceFound {
                etype: "ActionSequence"@,
                parent_id: pc.0,
                child_id: pc.1,
            }),
        },
{
    let ghost view = actions_entity_view(actions@);
    let mut i: usize = 0;
    while i < actions.len()
        invariant
            view == actions_entity_view(actions@),
            i <= actions@.len(),
            first_nested_sequence(view, i as int) is None,
        decreases actions.len() - i,
    {
        if let ActionEntity::Sequence(s) = &actions[i] {
            assert(view[i as int] == action_entity_view(actions@[i as int]));
            let ghost ids = s.actions@;
            let mut k: usize = 0;
            assert(ids.skip(0) == ids);
            while k < s.actions.len()
                invariant
                    view == actions_entity_view(actions@),
                    i < actions@.len(),
                    first_nested_sequence(view, i as int) is None,
                    actions@[i as int] == ActionEntity::Sequence(*s),
                    view[i as int] == action_entity_view(actions@[i as int]),
                    ids == s.actions@,
                    k <= ids.len(),
                    first_sequence_child(view, ids) == first_sequence_child(view, ids.skip(k as int)),
                decreases s.actions.len() - k,
            {
                assert(ids.skip(k as int).drop_first() == ids.skip(k + 1));
                assert(ids.skip(k as int)[0] == ids[k as int]);
                let id = s.actions[k].0;
                if id < actions.len() {
                    assert(view[id as int] == action_entity_view(actions@[id as int]));
                    if let ActionEntity::Sequence(inner) = &actions[id] {
                        proof {
                            lemma_first_nested_found(view, i + 1, actions@.len() as int);
                        }
                        return Err(
                            Application::CircularReferenceFound {
                                etype: text::owned("ActionSequence"),
                                parent_id: s.name.clone(),
                                child_id: inner.name.clone(),
                            },
                        );
                    }
                }
                k += 1;
            }
        }
        i += 1;
    }
    Ok(())
}

pub proof fn lemma_first_nested_found(actions: Seq<ActionModel>, i: int, n: int)
    requires
        0 <= i <= n,
        first_nested_sequence(actions, i) is Some,
    ensures
        first_nested_sequence(actions, n) == first_nested_sequence(actions, i),
    decreases n - i,
{
    if n > i {
        lemma_first_nested_found(actions, i, n - 1);
    }
}

} // verus!

verus! {

fn character_names(raws: &Vec<CharacterRaw>) -> (r: Vec<String>)
    ensures
        texts_view(r@) == characters_raw_view(raws@).map_values(|c: (Seq<char>, Seq<char>)| c.0),
{
    let mut out: Vec<String> = Vec::new();
    let mut i: usize = 0;
    while i < raws.len()
        invariant
            i <= raws@.len(),
            texts_view(out@) == characters_raw_view(raws@).take(i as int).map_values(|c: (Seq<char>, Seq<char>)| c.0),
        decreases raws.len() - i,
    {
        let ghost before = texts_view(out@);
        let n = raws[i].name.to_string();
        out.push(n);
        assert(texts_view(out@) =~= before.push(n@));
        assert(characters_raw_view(raws@).take(i + 1).map_values(|c: (Seq<char>, Seq<char>)| c.0) =~= characters_raw_view(
            raws@,
        ).take(i as int).map_values(|c: (Seq<char>, Seq<char>)| c.0).push(n@));
        i += 1;
    }
    assert(characters_raw_view(raws@).take(raws@.len() as int) == characters_raw_view(raws@));
    out
}

fn item_names(items: &Vec<crate::entity::Item>) -> (r: Vec<String>)
    ensures
        texts_view(r@) == items_view(items@).map_values(|i: (Seq<char>, Seq<char>)| i.0),
{
    let mut out: Vec<String> = Vec::new();
    let mut i: usize = 0;
    while i < items.len()
        invariant
            i <= items@.len(),
            texts_view(out@) == items_view(items@).take(i as int).map_values(|x: (Seq<char>, Seq<char>)| x.0),
        decreases items.len() - i,
    {
        let ghost before = texts_view(out@);
        let n = items[i].name.to_string();
        out.push(n);
        assert(texts_view(out@) =~= before.push(n@));
        assert(items_view(items@).take(i + 1).map_values(|x: (Seq<char>, Seq<char>)| x.0) =~= items_view(items@).take(
            i as int,
        ).map_values(|x: (Seq<char>, Seq<char>)| x.0).push(n@));
        i += 1;
    }
    assert(items_view(items@).take(items@.len() as int) == items_view(items@));
    out
}

fn action_names(raws: &Vec<ActionRaw>) -> (r: Vec<String>)
    ensures
        texts_view(r@) == actions_raw_view(raws@).map_values(|a: ActionText| action_text_name(a)),
{
    let mut out: Vec<String> = Vec::new();
    let mut i: usize = 0;
    while i < raws.len()
        invariant
            i <= raws@.len(),
            texts_view(out@) == actions_raw_view(raws@).take(i as int).map_values(|a: ActionText| action_text_name(a)),
        decreases raws.len() - i,
    {
        let n = raws[i].name().to_string();
        assert(n@ == action_text_name(action_raw_view(raws@[i as int])));
        let ghost before = texts_view(out@);
        out.push(n);
        assert(texts_view(out@) =~= before.push(n@));
        assert(actions_raw_view(raws@).take(i + 1).map_values(|a: ActionText| action_text_name(a)) =~= actions_raw_view(
            raws@,
        ).take(i as int).map_values(|a: ActionText| action_text_name(a)).push(n@));
        i += 1;
    }
    assert(actions_raw_view(raws@).take(raws@.len() as int) == actions_raw_view(raws@));
    out
}

fn response_names(raws: &Vec<ResponseRaw>) -> (r: Vec<String>)
    ensures
        texts_view(r@) == responses_raw_view(raws@).map_values(|x: ResponseText| x.name),
{
    let mut out: Vec<String> = Vec::new();
    let mut i: usize = 0;
    while i < raws.len()
        invariant
            i <= raws@.len(),
            texts_view(out@) == responses_raw_view(raws@).take(i as int).map_values(|x: ResponseText| x.name),
        decreases raws.len() - i,
    {
        let ghost before = texts_view(out@);
        let n = raws[i].name.to_string();
        out.push(n);
        assert(texts_view(out@) =~= before.push(n@));
        assert(responses_raw_view(raws@).take(i + 1).map_values(|x: ResponseText| x.name) =~= responses_raw_view(raws@).take(
            i as int,
        ).map_values(|x: ResponseText| x.name).push(n@));
        i += 1;
    }
    assert(responses_raw_view(raws@).take(raws@.len() as int) == responses_raw_view(raws@));
    out
}

/// Reads the world a document describes: every section checked to be of a known kind,
/// every entity read, every name it refers to turned into an index, and no action
/// sequence holding another.
pub fn parse(doc: &IniDoc) -> (r: Result<World, Application>)
    ensures
        match parse_spec(doc@) {
            Ok(w) => r is Ok && world_view(r->Ok_0) == w,
            Err(e) => r is Err && r->Err_0@ == e,
        },
{
    validate_section_types(doc)?;
    let title = parse_title(doc)?;
    let theme = parse_theme(doc)?;
    let language = parse_language(doc)?;
    let characters = parse_characters(doc)?;
    let items = parse_items(doc)?;
    let actions = parse_actions(doc)?;
    let responses = parse_responses(doc)?;
    let raw_rooms = parse_rooms(doc)?;
    let raw_dialogues = parse_dialogues(doc)?;
    let res = Resolver {
        items: NameIndex::new(item_names(&items)),
        actions: NameIndex::new(action_names(&actions)),
        responses: NameIndex::new(response_names(&responses)),
        characters: NameIndex::new(character_names(&characters)),
        rooms: map_ids(&raw_rooms),
        dialogues: map_ids(&raw_dialogues),
    };
    let ghost l = lookups_from(
        characters_raw_view(characters@),
        items_view(items@),
        actions_raw_view(actions@),
        responses_raw_view(responses@),
        rooms_raw_view(raw_rooms@),
        dialogues_raw_view(raw_dialogues@),
    );
    assert(res.rooms.keys() =~= l.rooms);
    assert(res.dialogues.keys() =~= l.dialogues);
    assert(res.lookups() == l);
    assert(l.rooms =~= room_keys(rooms_raw_view(raw_rooms@)));
    assert(l.dialogues =~= dialogue_keys(dialogues_raw_view(raw_dialogues@)));
    let start_room = res.room(&title.start_room)?;
    let game_title = GameTitle {
        title: title.title,
        greeting: title.greeting,
        credits: title.credits,
        start_room,
    };
    let characters = resolve_characters(&res, &characters)?;
    let actions = resolve_actions(&res, &actions)?;
    let responses = resolve_responses(&res, &responses)?;
    let rooms = group_room_variants(&res, &raw_rooms)?;
    let dialogues = group_dialogue_variants(&res, &raw_dialogues)?;
    check_sequences(&actions)?;
    let w = World::new(game_title, theme, language, items, actions, rooms, dialogues, characters, responses);
    Ok(w)
}

} // verus!
