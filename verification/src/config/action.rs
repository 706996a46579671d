//! Actions: `[Action:name]` whose kind is told by the key it has: `change_room`,
//! `teleport_to`, `replace_item`, `give_item`, `take_item` or `sequence`.

use vstd::prelude::*;

use crate::config::ini_doc::{has_key, prop_value, IniDoc, IniModel, PropsModel};
use crate::config::iter::{
    fold_results, fold_steps, kind_step, lemma_fold_err, lemma_fold_results_all, lemma_fold_results_err,
    lemma_fold_results_step, Step,
};
use crate::config::section::{
    id_list, id_list_of, id_name, ids_view, key_check, opt_id_view, optional_id, required_title,
    required_value, strs_view, value_or_empty, EntitySection, Record, RecordModel, UnverifiedRecord,
};
use crate::entity::{
    ActionRaw, ChangeRoomRaw, GiveItemRaw, ReplaceItemRaw, SequenceRaw, TakeItemRaw, TeleportRaw,
};
use crate::error::{Application, ErrorView};
use crate::names::{Identifier, IllegalConversion, ParseText, Title};
use crate::text::{self, list_entries, opt_string_view, split_arrow, texts_view, trim};

verus! {

/// An action as text.
pub enum ActionText {
    ChangeRoom {
        name: Seq<char>,
        description: Seq<char>,
        required: Option<Seq<char>>,
        room: Seq<char>,
        variant: Option<Seq<char>>,
    },
    GiveItem { name: Seq<char>, description: Seq<char>, required: Option<Seq<char>>, items: Seq<Seq<char>> },
    ReplaceItem { name: Seq<char>, description: Seq<char>, original: Seq<char>, replacement: Seq<char> },
    TakeItem { name: Seq<char>, description: Seq<char>, items: Seq<Seq<char>> },
    Teleport { name: Seq<char>, description: Seq<char>, required: Option<Seq<char>>, room: Seq<char> },
    Sequence { name: Seq<char>, description: Seq<char>, required: Option<Seq<char>>, actions: Seq<Seq<char>> },
}

pub open spec fn action_raw_view(a: ActionRaw) -> ActionText {
    match a {
        ActionRaw::ChangeRoom(c) => ActionText::ChangeRoom {
            name: c.name@,
            description: c.description@,
            required: opt_id_view(c.required),
            room: c.room@,
            variant: opt_id_view(c.variant),
        },
        ActionRaw::GiveItem(g) => ActionText::GiveItem {
            name: g.name@,
            description: g.description@,
            required: opt_id_view(g.required),
            items: ids_view(g.items@),
        },
        ActionRaw::ReplaceItem(r) => ActionText::ReplaceItem {
            name: r.name@,
            description: r.description@,
            original: r.original@,
            replacement: r.replacement@,
        },
        ActionRaw::TakeItem(t) => ActionText::TakeItem {
            name: t.name@,
            description: t.description@,
            items: ids_view(t.items@),
        },
        ActionRaw::Teleport(t) => ActionText::Teleport {
            name: t.name@,
            description: t.description@,
            required: opt_id_view(t.required),
            room: t.room@,
        },
        ActionRaw::Sequence(s) => ActionText::Sequence {
            name: s.name@,
            description: s.description@,
            required: opt_id_view(s.required),
            actions: ids_view(s.actions@),
        },
    }
}

pub open spec fn actions_raw_view(v: Seq<ActionRaw>) -> Seq<ActionText> {
    v.map_values(|a: ActionRaw| action_raw_view(a))
}

/// A conversion error of an action property.
pub open spec fn action_conversion(property: Seq<char>, value: Seq<char>, dtype: Seq<char>) -> ErrorView {
    ErrorView::ConversionFailed { etype: "Action"@, property, value, dtype }
}

/// `change_room=Room->variant`: the room and the variant it is set to.
pub open spec fn change_room_target(cr: Seq<char>) -> Result<(Seq<char>, Option<Seq<char>>), ErrorView> {
    let (a, b) = split_arrow(cr);
    if !Title::accepts(trim(a)) {
        Err(action_conversion("change_room:<RoomName>"@, trim(a), "Title"@))
    } else {
        match b {
            None => Ok((crate::names::title_case_of(trim(a)), None)),
            Some(v) => if Identifier::accepts(trim(v)) {
                Ok((crate::names::title_case_of(trim(a)), Some(crate::names::snake_case_of(trim(v)))))
            } else {
                Err(action_conversion("change_room:RoomName-><variant>"@, trim(v), "Identifier"@))
            },
        }
    }
}

pub open spec fn change_room_of(m: RecordModel) -> Result<ActionText, ErrorView> {
    match key_check(m, seq!["change_room"@, "description"@], seq!["required"@]) {
        Some(e) => Err(e),
        None => match required_value(m, "change_room"@) {
            Err(e) => Err(e),
            Ok(cr) => match change_room_target(cr) {
                Err(e) => Err(e),
                Ok(target) => match required_value(m, "description"@) {
                    Err(e) => Err(e),
                    Ok(description) => match optional_id(m, "required"@) {
                        Err(e) => Err(e),
                        Ok(required) => match id_name(m) {
                            Err(e) => Err(e),
                            Ok(name) => Ok(ActionText::ChangeRoom {
                                name,
                                description,
                                required,
                                room: target.0,
                                variant: target.1,
                            }),
                        },
                    },
                },
            },
        },
    }
}

pub open spec fn teleport_of(m: RecordModel) -> Result<ActionText, ErrorView> {
    match key_check(m, seq!["teleport_to"@, "description"@], seq!["required"@]) {
        Some(e) => Err(e),
        None => match required_title(m, "teleport_to"@) {
            Err(e) => Err(e),
            Ok(room) => match required_value(m, "description"@) {
                Err(e) => Err(e),
                Ok(description) => match optional_id(m, "required"@) {
                    Err(e) => Err(e),
                    Ok(required) => match id_name(m) {
                        Err(e) => Err(e),
                        Ok(name) => Ok(ActionText::Teleport { name, description, required, room }),
                    },
                },
            },
        },
    }
}

pub open spec fn give_item_of(m: RecordModel) -> Result<ActionText, ErrorView> {
    match key_check(m, seq!["give_item"@, "description"@], Seq::empty()) {
        Some(e) => Err(e),
        None => match id_list(m, "give_item"@) {
            Err(e) => Err(e),
            Ok(items) => match required_value(m, "description"@) {
                Err(e) => Err(e),
                Ok(description) => match optional_id(m, "required"@) {
                    Err(e) => Err(e),
                    Ok(required) => match id_name(m) {
                        Err(e) => Err(e),
                        Ok(name) => Ok(ActionText::GiveItem { name, description, required, items }),
                    },
                },
            },
        },
    }
}

/// A take action: the items listed in `take_item`.
pub open spec fn take_item_of(m: RecordModel) -> Result<ActionText, ErrorView> {
    match key_check(m, seq!["take_item"@, "description"@], seq!["required"@]) {
        Some(e) => Err(e),
        None => match id_list(m, "take_item"@) {
            Err(e) => Err(e),
            Ok(items) => match required_value(m, "description"@) {
                Err(e) => Err(e),
                Ok(description) => match id_name(m) {
                    Err(e) => Err(e),
                    Ok(name) => Ok(ActionText::TakeItem { name, description, items }),
                },
            },
        },
    }
}

/// `replace_item=original->replacement`, both read as identifiers without trimming.
pub open spec fn replacement_pair(m: RecordModel, ri: Seq<char>) -> Result<(Seq<char>, Seq<char>), ErrorView> {
    let (a, b) = split_arrow(ri);
    if !Identifier::accepts(a) {
        Err(action_conversion("replace_item:<original>"@, a, "Identifier"@))
    } else {
        match b {
            None => Err(ErrorView::PropertyNotFound {
                etype: "Action"@,
                property: "replace_item:original-><replacement>"@,
                id: m.qualified,
            }),
            Some(r) => if Identifier::accepts(r) {
                Ok((crate::names::snake_case_of(a), crate::names::snake_case_of(r)))
            } else {
                Err(action_conversion("replace_item:original-><replacement>"@, r, "Identifier"@))
            },
        }
    }
}

pub open spec fn replace_item_of(m: RecordModel) -> Result<ActionText, ErrorView> {
    match key_check(m, seq!["replace_item"@, "description"@], Seq::empty()) {
        Some(e) => Err(e),
        None => match required_value(m, "description"@) {
            Err(e) => Err(e),
            Ok(description) => match required_value(m, "replace_item"@) {
                Err(e) => Err(e),
                Ok(ri) => match replacement_pair(m, ri) {
                    Err(e) => Err(e),
                    Ok(pair) => match id_name(m) {
                        Err(e) => Err(e),
                        Ok(name) => Ok(ActionText::ReplaceItem {
                            name,
                            description,
                            original: pair.0,
                            replacement: pair.1,
                        }),
                    },
                },
            },
        },
    }
}

/// One entry of a `sequence` list, read as an identifier.
pub open spec fn sequence_entry(s: Seq<char>) -> Result<Seq<char>, ErrorView> {
    if Identifier::accepts(trim(s)) {
        Ok(crate::names::snake_case_of(trim(s)))
    } else {
        Err(action_conversion("sequence"@, trim(s), "Identifier"@))
    }
}

pub open spec fn sequence_of(m: RecordModel) -> Result<ActionText, ErrorView> {
    match key_check(m, seq!["sequence"@, "description"@], seq!["required"@]) {
        Some(e) => Err(e),
        None => match sequence_ids(m) {
            Err(e) => Err(e),
            Ok(actions) => match required_value(m, "description"@) {
                Err(e) => Err(e),
                Ok(description) => match optional_id(m, "required"@) {
                    Err(e) => Err(e),
                    Ok(required) => match id_name(m) {
                        Err(e) => Err(e),
                        Ok(name) => Ok(ActionText::Sequence { name, description, required, actions }),
                    },
                },
            },
        },
    }
}

/// The action a record describes; its kind is the first of its keys `change_room`,
/// `teleport_to`, `replace_item`, `give_item`, `take_item`, `sequence`.
pub open spec fn action_of(m: RecordModel) -> Result<ActionText, ErrorView> {
    if has_key(m.props, "change_room"@) {
        change_room_of(m)
    } else if has_key(m.props, "teleport_to"@) {
        teleport_of(m)
    } else if has_key(m.props, "replace_item"@) {
        replace_item_of(m)
    } else if has_key(m.props, "give_item"@) {
        give_item_of(m)
    } else if has_key(m.props, "take_item"@) {
        take_item_of(m)
    } else if has_key(m.props, "sequence"@) {
        sequence_of(m)
    } else {
        Err(ErrorView::EntityDataIncomplete("Action"@))
    }
}

pub open spec fn actions_step() -> spec_fn((Option<Seq<char>>, PropsModel)) -> Step<ActionText> {
    |sec: (Option<Seq<char>>, PropsModel)| kind_step(sec, EntitySection::Action, |m: RecordModel| action_of(m))
}

/// The actions of a document, in order, or the first error.
pub open spec fn actions_of(d: IniModel) -> Result<Seq<ActionText>, ErrorView> {
    fold_steps(d, d.len() as int, actions_step())
}

fn action_conversion_error(property: &str, source: IllegalConversion) -> (e: Application)
    ensures
        e@ == action_conversion(property@, source.value@, source.dtype@),
{
    Application::ConversionFailed { etype: text::owned("Action"), property: text::owned(property), source }
}

fn next_change_room_action(record: UnverifiedRecord) -> (r: Result<ActionRaw, Application>)
    ensures
        match change_room_of(record.model()) {
            Ok(x) => r is Ok && action_raw_view(r->Ok_0) == x,
            Err(e) => r is Err && r->Err_0@ == e,
        },
{
    let required: [&str; 2] = ["change_room", "description"];
    let optional: [&str; 1] = ["required"];
    assert(strs_view(required@) =~= seq!["change_room"@, "description"@]);
    assert(strs_view(optional@) =~= seq!["required"@]);
    let record = record.into_record(&required, &optional)?;
    let change_room = record.require("change_room")?;
    let (a, b) = text::split_arrow_at(change_room.as_str());
    let room_text = text::trimmed(a.as_str());
    let room = match Title::parse_text(room_text.as_str()) {
        Ok(t) => t,
        Err(source) => {
            return Err(action_conversion_error("change_room:<RoomName>", source));
        },
    };
    let variant = match b {
        None => None,
        Some(v) => {
            let v = text::trimmed(v.as_str());
            match Identifier::parse_text(v.as_str()) {
                Ok(i) => Some(i),
                Err(source) => {
                    return Err(action_conversion_error("change_room:RoomName-><variant>", source));
                },
            }
        },
    };
    let description = text::owned(record.require("description")?.as_str());
    let required = record.get_parsed::<Identifier>("required")?;
    let name = record.parse_name::<Identifier>()?;
    Ok(ActionRaw::ChangeRoom(ChangeRoomRaw { name, description, required, room, variant }))
}

fn next_teleport_action(record: UnverifiedRecord) -> (r: Result<ActionRaw, Application>)
    ensures
        match teleport_of(record.model()) {
            Ok(x) => r is Ok && action_raw_view(r->Ok_0) == x,
            Err(e) => r is Err && r->Err_0@ == e,
        },
{
    let required: [&str; 2] = ["teleport_to", "description"];
    let optional: [&str; 1] = ["required"];
    assert(strs_view(required@) =~= seq!["teleport_to"@, "description"@]);
    assert(strs_view(optional@) =~= seq!["required"@]);
    let record = record.into_record(&required, &optional)?;
    let room = record.require_parsed::<Title>("teleport_to")?;
    let description = text::owned(record.require("description")?.as_str());
    let required = record.get_parsed::<Identifier>("required")?;
    let name = record.parse_name::<Identifier>()?;
    Ok(ActionRaw::Teleport(TeleportRaw { name, description, required, room }))
}

fn next_give_item_action(record: UnverifiedRecord) -> (r: Result<ActionRaw, Application>)
    ensures
        match give_item_of(record.model()) {
            Ok(x) => r is Ok && action_raw_view(r->Ok_0) == x,
            Err(e) => r is Err && r->Err_0@ == e,
        },
{
    let required: [&str; 2] = ["give_item", "description"];
    let optional: [&str; 0] = [];
    assert(strs_view(required@) =~= seq!["give_item"@, "description"@]);
    assert(strs_view(optional@) =~= Seq::<Seq<char>>::empty());
    let record = record.into_record(&required, &optional)?;
    let items = id_list_of(&record, "give_item")?;
    let description = text::owned(record.require("description")?.as_str());
    let required = record.get_parsed::<Identifier>("required")?;
    let name = record.parse_name::<Identifier>()?;
    Ok(ActionRaw::GiveItem(GiveItemRaw { name, description, required, items }))
}

fn next_take_item_action(record: UnverifiedRecord) -> (r: Result<ActionRaw, Application>)
    ensures
        match take_item_of(record.model()) {
            Ok(x) => r is Ok && action_raw_view(r->Ok_0) == x,
            Err(e) => r is Err && r->Err_0@ == e,
        },
{
    let required: [&str; 2] = ["take_item", "description"];
    let optional: [&str; 1] = ["required"];
    assert(strs_view(required@) =~= seq!["take_item"@, "description"@]);
    assert(strs_view(optional@) =~= seq!["required"@]);
    let record = record.into_record(&required, &optional)?;
    let items = id_list_of(&record, "take_item")?;
    let description = text::owned(record.require("description")?.as_str());
    let name = record.parse_name::<Identifier>()?;
    Ok(ActionRaw::TakeItem(TakeItemRaw { name, description, items }))
}

fn next_replace_item_action(record: UnverifiedRecord) -> (r: Result<ActionRaw, Application>)
    ensures
        match replace_item_of(record.model()) {
            Ok(x) => r is Ok && action_raw_view(r->Ok_0) == x,
            Err(e) => r is Err && r->Err_0@ == e,
        },
{
    let required: [&str; 2] = ["replace_item", "description"];
    let optional: [&str; 0] = [];
    assert(strs_view(required@) =~= seq!["replace_item"@, "description"@]);
    assert(strs_view(optional@) =~= Seq::<Seq<char>>::empty());
    let record = record.into_record(&required, &optional)?;
    let description = text::owned(record.require("description")?.as_str());
    let replace_item = record.require("replace_item")?;
    let (a, b) = text::split_arrow_at(replace_item.as_str());
    let original = match Identifier::parse_text(a.as_str()) {
        Ok(i) => i,
        Err(source) => {
            return Err(action_conversion_error("replace_item:<original>", source));
        },
    };
    let replacement = match b {
        None => {
            return Err(
                Application::PropertyNotFound {
                    etype: text::owned("Action"),
                    property: text::owned("replace_item:original-><replacement>"),
                    id: text::owned(record.qualified_name()),
                },
            );
        },
        Some(r) => match Identifier::parse_text(r.as_str()) {
            Ok(i) => i,
            Err(source) => {
                return Err(action_conversion_error("replace_item:original-><replacement>", source));
            },
        },
    };
    let name = record.parse_name::<Identifier>()?;
    Ok(ActionRaw::ReplaceItem(ReplaceItemRaw { name, description, original, replacement }))
}

/// The entries of a `sequence` list, each read as an identifier.
pub open spec fn sequence_ids(m: RecordModel) -> Result<Seq<Seq<char>>, ErrorView> {
    fold_results(list_entries(value_or_empty(prop_value(m.props, "sequence"@))), |s: Seq<char>| sequence_entry(s))
}

fn parse_sequence(record: &Record) -> (r: Result<Vec<Identifier>, Application>)
    ensures
        match sequence_ids(record.model()) {
            Ok(x) => r is Ok && ids_view(r->Ok_0@) == x,
            Err(e) => r is Err && r->Err_0@ == e,
        },
{
    let list = record.get_list("sequence");
    let ghost entries = texts_view(list@);
    let ghost f = |s: Seq<char>| sequence_entry(s);
    let mut actions: Vec<Identifier> = Vec::new();
    let mut i: usize = 0;
    proof {
        lemma_fold_results_all(entries, f);
    }
    assert(ids_view(actions@) =~= Seq::<Seq<char>>::empty());
    while i < list.len()
        invariant
            entries == texts_view(list@),
            entries == list_entries(value_or_empty(prop_value(record.model().props, "sequence"@))),
            f == (|s: Seq<char>| sequence_entry(s)),
            i <= list@.len(),
            fold_results(entries.take(i as int), f) == Ok::<Seq<Seq<char>>, ErrorView>(ids_view(actions@)),
        decreases list.len() - i,
    {
        proof {
            lemma_fold_results_step(entries, i as int, f);
        }
        assert(entries[i as int] == list@[i as int]@);
        let t = text::trimmed(list[i].as_str());
        match Identifier::parse_text(t.as_str()) {
            Err(source) => {
                proof {
                    lemma_fold_results_err(entries, i + 1, f);
                }
                return Err(action_conversion_error("sequence", source));
            },
            Ok(id) => {
                let ghost before = ids_view(actions@);
                actions.push(id);
                assert(ids_view(actions@) =~= before.push(id@));
            },
        }
        i += 1;
    }
    proof {
        lemma_fold_results_all(entries, f);
    }
    Ok(actions)
}

fn next_sequence_action(record: UnverifiedRecord) -> (r: Result<ActionRaw, Application>)
    ensures
        match sequence_of(record.model()) {
            Ok(x) => r is Ok && action_raw_view(r->Ok_0) == x,
            Err(e) => r is Err && r->Err_0@ == e,
        },
{
    let required: [&str; 2] = ["sequence", "description"];
    let optional: [&str; 1] = ["required"];
    assert(strs_view(required@) =~= seq!["sequence"@, "description"@]);
    assert(strs_view(optional@) =~= seq!["required"@]);
    let record = record.into_record(&required, &optional)?;
    let actions = parse_sequence(&record)?;
    let description = text::owned(record.require("description")?.as_str());
    let required = record.get_parsed::<Identifier>("required")?;
    let name = record.parse_name::<Identifier>()?;
    Ok(ActionRaw::Sequence(SequenceRaw { name, description, required, actions }))
}

/// Reads one action record, choosing its kind by the keys it has.
fn action_from_record(record: UnverifiedRecord) -> (r: Result<ActionRaw, Application>)
    ensures
        match action_of(record.model()) {
            Ok(x) => r is Ok && action_raw_view(r->Ok_0) == x,
            Err(e) => r is Err && r->Err_0@ == e,
        },
{
    if record.contains_key("change_room") {
        next_change_room_action(record)
    } else if record.contains_key("teleport_to") {
        next_teleport_action(record)
    } else if record.contains_key("replace_item") {
        next_replace_item_action(record)
    } else if record.contains_key("give_item") {
        next_give_item_action(record)
    } else if record.contains_key("take_item") {
        next_take_item_action(record)
    } else if record.contains_key("sequence") {
        next_sequence_action(record)
    } else {
        Err(Application::EntityDataIncomplete(text::owned("Action")))
    }
}

/// Every action of the document, in order (`[Action:name]` sections).
pub fn parse_actions(doc: &IniDoc) -> (r: Result<Vec<ActionRaw>, Application>)
    ensures
        match actions_of(doc@) {
            Ok(s) => r is Ok && actions_raw_view(r->Ok_0@) == s,
            Err(e) => r is Err && r->Err_0@ == e,
        },
{
    let mut list: Vec<ActionRaw> = Vec::new();
    let mut i: usize = 0;
    assert(actions_raw_view(list@) =~= Seq::<ActionText>::empty());
    while i < doc.sections.len()
        invariant
            i <= doc@.len(),
            fold_steps(doc@, i as int, actions_step()) == Ok::<Seq<ActionText>, ErrorView>(actions_raw_view(list@)),
        decreases doc.sections.len() - i,
    {
        let sec = &doc.sections[i];
        assert(doc@[i as int] == sec@);
        let ghost before = actions_raw_view(list@);
        assert(fold_steps(doc@, i + 1, actions_step()) == match actions_step()(doc@[i as int]) {
            Step::Skip => Ok(before),
            Step::Take(x) => Ok(before.push(x)),
            Step::Fail(e) => Err(e),
        });
        if let Some(name) = &sec.name {
            match UnverifiedRecord::try_new(name.as_str(), &sec.properties) {
                Err(e) => {
                    proof {
                        lemma_fold_err(doc@, i + 1, doc@.len() as int, actions_step());
                    }
                    return Err(e);
                },
                Ok(rec) => {
                    if rec.section == EntitySection::Action {
                        match action_from_record(rec) {
                            Err(e) => {
                                proof {
                                    lemma_fold_err(doc@, i + 1, doc@.len() as int, actions_step());
                                }
                                return Err(e);
                            },
                            Ok(x) => {
                                list.push(x);
                                assert(actions_raw_view(list@) =~= before.push(action_raw_view(x)));
                            },
                        }
                    }
                },
            }
        }
        i += 1;
    }
    Ok(list)
}

} // verus!
