//! Rooms: `[Room:Name]` or `[Room:Name|variant]` with a `description` and optional
//! `characters`, `exits` (`direction:Room`) and `actions` lists.

use indexmap::IndexMap;
use vstd::prelude::*;

use crate::config::ini_doc::{prop_value, IniDoc, IniModel, PropsModel};
use crate::config::iter::{
    fold_results, fold_steps, kind_step, lemma_fold_err, lemma_fold_results_all, lemma_fold_results_err,
    lemma_fold_results_step, Step,
};
use crate::config::section::{
    id_list, id_list_of, ids_view, key_check, opt_id_view, property_not_found, required_value, section_text,
    strs_view, title_list, title_list_of, title_name, titles_view, value_or_empty, EntitySection, Record,
    RecordModel, UnverifiedRecord,
};
use crate::entity::RoomRaw;
use crate::error::{Application, ErrorView};
use crate::exits::{inserted, insert_raw_exit, new_raw_exits, raw_exit_entries};
use crate::names::{Identifier, ParseText, Title};
use crate::text::{self, list_entries, pieces, texts_view, trim};

verus! {

/// A room variant as text.
pub struct RoomText {
    pub name: Seq<char>,
    pub variant: Option<Seq<char>>,
    pub description: Seq<char>,
    pub characters: Seq<Seq<char>>,
    pub exits: Seq<(Seq<char>, Seq<char>)>,
    pub actions: Seq<Seq<char>>,
}

pub open spec fn room_raw_view(r: RoomRaw) -> RoomText {
    RoomText {
        name: r.name@,
        variant: opt_id_view(r.variant),
        description: r.description@,
        characters: titles_view(r.characters@),
        exits: raw_exit_entries(r.exits),
        actions: ids_view(r.actions@),
    }
}

pub open spec fn rooms_raw_view(v: Seq<RoomRaw>) -> Seq<RoomText> {
    v.map_values(|r: RoomRaw| room_raw_view(r))
}

/// One entry `direction:Room` of an `exits` list.
pub open spec fn exit_of(m: RecordModel, s: Seq<char>) -> Result<(Seq<char>, Seq<char>), ErrorView> {
    let ps = pieces(s, ':');
    let direction = trim(ps[0]);
    if !Identifier::accepts(direction) {
        Err(ErrorView::ConversionFailed {
            etype: section_text(m.kind),
            property: "exit=<direction>"@,
            value: direction,
            dtype: "Identifier"@,
        })
    } else if ps.len() < 2 {
        Err(property_not_found(m, "exit=direction:<room>"@))
    } else if !Title::accepts(trim(ps[1])) {
        Err(ErrorView::ConversionFailed {
            etype: section_text(m.kind),
            property: "exit=direction:<room>"@,
            value: trim(ps[1]),
            dtype: "Title"@,
        })
    } else {
        Ok((crate::names::snake_case_of(direction), crate::names::title_case_of(trim(ps[1]))))
    }
}

/// The pairs put one after another into an ordered map.
pub open spec fn inserted_all<K, V>(pairs: Seq<(K, V)>) -> Seq<(K, V)>
    decreases pairs.len(),
{
    if pairs.len() == 0 {
        Seq::empty()
    } else {
        inserted(inserted_all(pairs.drop_last()), pairs.last().0, pairs.last().1)
    }
}

/// The exit table of a record: each direction with its room, a repeated direction
/// keeping its first place and its last room.
pub open spec fn exits_of(m: RecordModel) -> Result<Seq<(Seq<char>, Seq<char>)>, ErrorView> {
    match fold_results(
        list_entries(value_or_empty(prop_value(m.props, "exits"@))),
        |s: Seq<char>| exit_of(m, s),
    ) {
        Err(e) => Err(e),
        Ok(pairs) => Ok(inserted_all(pairs)),
    }
}

/// The room variant a record describes.
pub open spec fn room_of(m: RecordModel) -> Result<RoomText, ErrorView> {
    match key_check(m, seq!["description"@], seq!["characters"@, "exits"@, "actions"@]) {
        Some(e) => Err(e),
        None => match required_value(m, "description"@) {
            Err(e) => Err(e),
            Ok(description) => match exits_of(m) {
                Err(e) => Err(e),
                Ok(exits) => match title_list(m, "characters"@) {
                    Err(e) => Err(e),
                    Ok(characters) => match id_list(m, "actions"@) {
                        Err(e) => Err(e),
                        Ok(actions) => match title_name(m) {
                            Err(e) => Err(e),
                            Ok(name) => Ok(RoomText { name, variant: m.variant, description, characters, exits, actions }),
                        },
                    },
                },
            },
        },
    }
}

pub open spec fn rooms_step() -> spec_fn((Option<Seq<char>>, PropsModel)) -> Step<RoomText> {
    |sec: (Option<Seq<char>>, PropsModel)| kind_step(sec, EntitySection::Room, |m: RecordModel| room_of(m))
}

/// The room variants of a document, in order, or the first error.
pub open spec fn rooms_of(d: IniModel) -> Result<Seq<RoomText>, ErrorView> {
    fold_steps(d, d.len() as int, rooms_step())
}

/// Reads one entry `direction:Room` of an `exits` list.
fn parse_exit(record: &Record, exit: &str) -> (r: Result<(Identifier, Title), Application>)
    ensures
        match exit_of(record.model(), exit@) {
            Ok(x) => r is Ok && r->Ok_0.0@ == x.0 && r->Ok_0.1@ == x.1,
            Err(e) => r is Err && r->Err_0@ == e,
        },
{
    let parts = text::pieces_of(exit, ':');
    proof {
        text::lemma_pieces_len(exit@, ':');
    }
    assert(parts@[0]@ == pieces(exit@, ':')[0]);
    let direction = text::trimmed(parts[0].as_str());
    let direction = match Identifier::parse_text(direction.as_str()) {
        Ok(d) => d,
        Err(source) => {
            return Err(
                Application::ConversionFailed {
                    etype: text::owned(record.entity_type()),
                    property: text::owned("exit=<direction>"),
                    source,
                },
            );
        },
    };
    if parts.len() < 2 {
        return Err(
            Application::PropertyNotFound {
                etype: text::owned(record.entity_type()),
                property: text::owned("exit=direction:<room>"),
                id: text::owned(record.qualified_name()),
            },
        );
    }
    assert(parts@[1]@ == pieces(exit@, ':')[1]);
    let room = text::trimmed(parts[1].as_str());
    match Title::parse_text(room.as_str()) {
        Ok(t) => Ok((direction, t)),
        Err(source) => Err(
            Application::ConversionFailed {
                etype: text::owned(record.entity_type()),
                property: text::owned("exit=direction:<room>"),
                source,
            },
        ),
    }
}

/// Reads the `exits` list of a room record into its exit table.
fn parse_exits(record: &Record) -> (r: Result<IndexMap<Identifier, Title>, Application>)
    ensures
        match exits_of(record.model()) {
            Ok(x) => r is Ok && raw_exit_entries(r->Ok_0) == x,
            Err(e) => r is Err && r->Err_0@ == e,
        },
{
    let list = record.get_list("exits");
    let ghost entries = texts_view(list@);
    let ghost f = |s: Seq<char>| exit_of(record.model(), s);
    let ghost mut pairs: Seq<(Seq<char>, Seq<char>)> = Seq::empty();
    let mut map = new_raw_exits();
    let mut i: usize = 0;
    proof {
        lemma_fold_results_all(entries, f);
    }
    while i < list.len()
        invariant
            entries == texts_view(list@),
            entries == list_entries(value_or_empty(prop_value(record.model().props, "exits"@))),
            f == (|s: Seq<char>| exit_of(record.model(), s)),
            i <= list@.len(),
            fold_results(entries.take(i as int), f) == Ok::<Seq<(Seq<char>, Seq<char>)>, ErrorView>(pairs),
            raw_exit_entries(map) == inserted_all(pairs),
        decreases list.len() - i,
    {
        proof {
            lemma_fold_results_step(entries, i as int, f);
        }
        assert(entries[i as int] == list@[i as int]@);
        match parse_exit(record, list[i].as_str()) {
            Err(e) => {
                proof {
                    lemma_fold_results_err(entries, i + 1, f);
                }
                return Err(e);
            },
            Ok((direction, room)) => {
                let ghost x = (direction@, room@);
                insert_raw_exit(&mut map, direction, room);
                proof {
                    let old_pairs = pairs;
                    pairs = pairs.push(x);
                    assert(pairs.drop_last() == old_pairs);
                }
            },
        }
        i += 1;
    }
    proof {
        lemma_fold_results_all(entries, f);
    }
    Ok(map)
}

fn room_from_record(rec: UnverifiedRecord) -> (r: Result<RoomRaw, Application>)
    ensures
        match room_of(rec.model()) {
            Ok(x) => r is Ok && room_raw_view(r->Ok_0) == x,
            Err(e) => r is Err && r->Err_0@ == e,
        },
{
    let required: [&str; 1] = ["description"];
    let optional: [&str; 3] = ["characters", "exits", "actions"];
    assert(strs_view(required@) =~= seq!["description"@]);
    assert(strs_view(optional@) =~= seq!["characters"@, "exits"@, "actions"@]);
    let record = rec.into_record(&required, &optional)?;
    let description = text::owned(record.require("description")?.as_str());
    let exits = parse_exits(&record)?;
    let characters = title_list_of(&record, "characters")?;
    let actions = id_list_of(&record, "actions")?;
    let name = record.parse_name::<Title>()?;
    let variant = match record.variant() {
        Some(v) => Some(v.clone()),
        None => None,
    };
    Ok(RoomRaw { name, variant, description, characters, exits, actions })
}

/// Every room variant of the document, in order (`[Room:Name|variant]` sections).
pub fn parse_rooms(doc: &IniDoc) -> (r: Result<Vec<RoomRaw>, Application>)
    ensures
        match rooms_of(doc@) {
            Ok(s) => r is Ok && rooms_raw_view(r->Ok_0@) == s,
            Err(e) => r is Err && r->Err_0@ == e,
        },
{
    let mut list: Vec<RoomRaw> = Vec::new();
    let mut i: usize = 0;
    assert(rooms_raw_view(list@) =~= Seq::<RoomText>::empty());
    while i < doc.sections.len()
        invariant
            i <= doc@.len(),
            fold_steps(doc@, i as int, rooms_step()) == Ok::<Seq<RoomText>, ErrorView>(rooms_raw_view(list@)),
        decreases doc.sections.len() - i,
    {
        let sec = &doc.sections[i];
        assert(doc@[i as int] == sec@);
        let ghost before = rooms_raw_view(list@);
        assert(fold_steps(doc@, i + 1, rooms_step()) == match rooms_step()(doc@[i as int]) {
            Step::Skip => Ok(before),
            Step::Take(x) => Ok(before.push(x)),
            Step::Fail(e) => Err(e),
        });
        if let Some(name) = &sec.name {
            match UnverifiedRecord::try_new(name.as_str(), &sec.properties) {
                Err(e) => {
                    proof {
                        lemma_fold_err(doc@, i + 1, doc@.len() as int, rooms_step());
                    }
                    return Err(e);
                },
                Ok(rec) => {
                    if rec.section == EntitySection::Room {
                        match room_from_record(rec) {
                            Err(e) => {
                                proof {
                                    lemma_fold_err(doc@, i + 1, doc@.len() as int, rooms_step());
                                }
                                return Err(e);
                            },
                            Ok(x) => {
                                list.push(x);
                                assert(rooms_raw_view(list@) =~= before.push(room_raw_view(x)));
                            },
                        }
                    }
                },
            }
        }
        i += 1;
    }
    Ok(list)
}

} // verus!
