//! Characters: `[Character:Name]` with a `start_dialogue`.

use vstd::prelude::*;

use crate::config::ini_doc::{IniDoc, IniModel, PropsModel};
use crate::config::iter::{fold_steps, kind_step, lemma_fold_err, Step};
use crate::config::section::{
    key_check, required_id, strs_view, title_name, EntitySection, RecordModel, UnverifiedRecord,
};
use crate::entity::CharacterRaw;
use crate::error::{Application, ErrorView};
use crate::names::{Identifier, Title};

verus! {

pub open spec fn character_raw_view(c: CharacterRaw) -> (Seq<char>, Seq<char>) {
    (c.name@, c.start_dialogue@)
}

pub open spec fn characters_raw_view(v: Seq<CharacterRaw>) -> Seq<(Seq<char>, Seq<char>)> {
    v.map_values(|c: CharacterRaw| character_raw_view(c))
}

/// The character a record describes: its name and the name of its first dialogue.
pub open spec fn character_of(m: RecordModel) -> Result<(Seq<char>, Seq<char>), ErrorView> {
    match key_check(m, seq!["start_dialogue"@], Seq::empty()) {
        Some(e) => Err(e),
        None => match required_id(m, "start_dialogue"@) {
            Err(e) => Err(e),
            Ok(start_dialogue) => match title_name(m) {
                Err(e) => Err(e),
                Ok(name) => Ok((name, start_dialogue)),
            },
        },
    }
}

pub open spec fn characters_step() -> spec_fn((Option<Seq<char>>, PropsModel)) -> Step<(Seq<char>, Seq<char>)> {
    |sec: (Option<Seq<char>>, PropsModel)| kind_step(sec, EntitySection::Character, |m: RecordModel| character_of(m))
}

/// The characters of a document, in order, or the first error.
pub open spec fn characters_of(d: IniModel) -> Result<Seq<(Seq<char>, Seq<char>)>, ErrorView> {
    fold_steps(d, d.len() as int, characters_step())
}

fn character_from_record(rec: UnverifiedRecord) -> (r: Result<CharacterRaw, Application>)
    ensures
        match character_of(rec.model()) {
            Ok(x) => r is Ok && character_raw_view(r->Ok_0) == x,
            Err(e) => r is Err && r->Err_0@ == e,
        },
{
    let required: [&str; 1] = ["start_dialogue"];
    let optional: [&str; 0] = [];
    assert(strs_view(required@) =~= seq!["start_dialogue"@]);
    assert(strs_view(optional@) =~= Seq::<Seq<char>>::empty());
    let record = rec.into_record(&required, &optional)?;
    let start_dialogue = record.require_parsed::<Identifier>("start_dialogue")?;
    let name = record.parse_name::<Title>()?;
    Ok(CharacterRaw { name, start_dialogue })
}

/// Every character of the document, in order (`[Character:Name]` sections).
pub fn parse_characters(doc: &IniDoc) -> (r: Result<Vec<CharacterRaw>, Application>)
    ensures
        match characters_of(doc@) {
            Ok(s) => r is Ok && characters_raw_view(r->Ok_0@) == s,
            Err(e) => r is Err && r->Err_0@ == e,
        },
{
    let mut list: Vec<CharacterRaw> = Vec::new();
    let mut i: usize = 0;
    assert(characters_raw_view(list@) =~= Seq::<(Seq<char>, Seq<char>)>::empty());
    while i < doc.sections.len()
        invariant
            i <= doc@.len(),
            fold_steps(doc@, i as int, characters_step()) == Ok::<Seq<(Seq<char>, Seq<char>)>, ErrorView>(characters_raw_view(list@)),
        decreases doc.sections.len() - i,
    {
        let sec = &doc.sections[i];
        assert(doc@[i as int] == sec@);
        let ghost before = characters_raw_view(list@);
        assert(fold_steps(doc@, i + 1, characters_step()) == match characters_step()(doc@[i as int]) {
            Step::Skip => Ok(before),
            Step::Take(x) => Ok(before.push(x)),
            Step::Fail(e) => Err(e),
        });
        if let Some(name) = &sec.name {
            match UnverifiedRecord::try_new(name.as_str(), &sec.properties) {
                Err(e) => {
                    proof {
                        lemma_fold_err(doc@, i + 1, doc@.len() as int, characters_step());
                    }
                    return Err(e);
                },
                Ok(rec) => {
                    if rec.section == EntitySection::Character {
                        match character_from_record(rec) {
                            Err(e) => {
                                proof {
                                    lemma_fold_err(doc@, i + 1, doc@.len() as int, characters_step());
                                }
                                return Err(e);
                            },
                            Ok(c) => {
                                list.push(c);
                                assert(characters_raw_view(list@) =~= before.push(character_raw_view(c)));
                            },
                        }
                    }
                },
            }
        }
        i += 1;
    }
    Ok(list)
}

} // verus!
