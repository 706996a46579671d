//! Items: `[Item:name]` with a `description`.

use vstd::prelude::*;

use crate::config::ini_doc::{IniDoc, IniModel, PropsModel};
use crate::config::iter::{fold_steps, kind_step, lemma_fold_err, Step};
use crate::config::section::{
    id_name, key_check, required_value, EntitySection, RecordModel, UnverifiedRecord,
};
use crate::entity::Item;
use crate::error::{Application, ErrorView};
use crate::names::Identifier;
use crate::text;

verus! {

pub open spec fn item_view(i: Item) -> (Seq<char>, Seq<char>) {
    (i.name@, i.description@)
}

pub open spec fn items_view(v: Seq<Item>) -> Seq<(Seq<char>, Seq<char>)> {
    v.map_values(|i: Item| item_view(i))
}

/// The item a record describes: its name and description.
pub open spec fn item_of(m: RecordModel) -> Result<(Seq<char>, Seq<char>), ErrorView> {
    match key_check(m, seq!["description"@], Seq::empty()) {
        Some(e) => Err(e),
        None => match required_value(m, "description"@) {
            Err(e) => Err(e),
            Ok(description) => match id_name(m) {
                Err(e) => Err(e),
                Ok(name) => Ok((name, description)),
            },
        },
    }
}

pub open spec fn items_step() -> spec_fn((Option<Seq<char>>, PropsModel)) -> Step<(Seq<char>, Seq<char>)> {
    |sec: (Option<Seq<char>>, PropsModel)| kind_step(sec, EntitySection::Item, |m: RecordModel| item_of(m))
}

/// The items of a document, in order, or the first error.
pub open spec fn items_of(d: IniModel) -> Result<Seq<(Seq<char>, Seq<char>)>, ErrorView> {
    fold_steps(d, d.len() as int, items_step())
}

/// Reads one item record.
fn item_from_record(rec: UnverifiedRecord) -> (r: Result<Item, Application>)
    ensures
        match item_of(rec.model()) {
            Ok(x) => r is Ok && item_view(r->Ok_0) == x,
            Err(e) => r is Err && r->Err_0@ == e,
        },
{
    let required: [&str; 1] = ["description"];
    let optional: [&str; 0] = [];
    proof {
        reveal_strlit("description");
    }
    assert(crate::config::section::strs_view(required@) =~= seq!["description"@]);
    assert(crate::config::section::strs_view(optional@) =~= Seq::<Seq<char>>::empty());
    let record = rec.into_record(&required, &optional)?;
    let description = text::owned(record.require("description")?.as_str());
    let name = record.parse_name::<Identifier>()?;
    Ok(Item { name, description })
}

/// Every item of the document, in order (`[Item:name]` sections).
pub fn parse_items(doc: &IniDoc) -> (r: Result<Vec<Item>, Application>)
    ensures
        match items_of(doc@) {
            Ok(s) => r is Ok && items_view(r->Ok_0@) == s,
            Err(e) => r is Err && r->Err_0@ == e,
        },
{
    let mut list: Vec<Item> = Vec::new();
    let mut i: usize = 0;
    assert(items_view(list@) =~= Seq::<(Seq<char>, Seq<char>)>::empty());
    while i < doc.sections.len()
        invariant
            i <= doc@.len(),
            fold_steps(doc@, i as int, items_step()) == Ok::<Seq<(Seq<char>, Seq<char>)>, ErrorView>(items_view(list@)),
        decreases doc.sections.len() - i,
    {
        let sec = &doc.sections[i];
        assert(doc@[i as int] == sec@);
        let ghost before = items_view(list@);
        assert(fold_steps(doc@, i + 1, items_step()) == match items_step()(doc@[i as int]) {
            Step::Skip => Ok(before),
            Step::Take(x) => Ok(before.push(x)),
            Step::Fail(e) => Err(e),
        });
        if sec.name.is_none() {
            assert(items_step()(doc@[i as int]) is Skip);
        }
        if let Some(name) = &sec.name {
            match UnverifiedRecord::try_new(name.as_str(), &sec.properties) {
                Err(e) => {
                    proof {
                        lemma_fold_err(doc@, i + 1, doc@.len() as int, items_step());
                    }
                    return Err(e);
                },
                Ok(rec) => {
                    assert(rec.section != EntitySection::Item ==> items_step()(doc@[i as int]) is Skip);
                    if rec.section == EntitySection::Item {
                        match item_from_record(rec) {
                            Err(e) => {
                                proof {
                                    lemma_fold_err(doc@, i + 1, doc@.len() as int, items_step());
                                }
                                return Err(e);
                            },
                            Ok(item) => {
                                assert(items_step()(doc@[i as int]) == Step::Take(item_view(item)));
                                list.push(item);
                                assert(items_view(list@) =~= before.push(item_view(item)));
                            },
                        }
                    }
                },
            }
        }
        i += 1;
    }
    Ok(list)
}

} // verus!
