//! Dialogues: `[Dialogue:name]` or `[Dialogue:name|variant]` with `text` and optional
//! `response` and `requires` lists.

use vstd::prelude::*;

use crate::config::ini_doc::{has_key, IniDoc, IniModel, PropsModel};
use crate::config::iter::{fold_steps, kind_step, lemma_fold_err, Step};
use crate::config::requirement::{parse_requirements, requirements_of, requirements_raw_view, RequirementText};
use crate::config::section::{
    id_list, id_list_of, id_name, ids_view, key_check, opt_id_view, required_value, strs_view, EntitySection,
    RecordModel, UnverifiedRecord,
};
use crate::entity::DialogueRaw;
use crate::error::{Application, ErrorView};
use crate::names::Identifier;
use crate::text;

verus! {

/// A dialogue variant as text.
pub struct DialogueText {
    pub name: Seq<char>,
    pub variant: Option<Seq<char>>,
    pub text: Seq<char>,
    pub responses: Seq<Seq<char>>,
    pub requires: Seq<RequirementText>,
}

pub open spec fn dialogue_raw_view(d: DialogueRaw) -> DialogueText {
    DialogueText {
        name: d.name@,
        variant: opt_id_view(d.variant),
        text: d.text@,
        responses: ids_view(d.responses@),
        requires: requirements_raw_view(d.requires@),
    }
}

pub open spec fn dialogues_raw_view(v: Seq<DialogueRaw>) -> Seq<DialogueText> {
    v.map_values(|d: DialogueRaw| dialogue_raw_view(d))
}

/// The key a dialogue section lists its responses under: `response`, or `responses`
/// when it has no `response` key. A section with both is refused for `responses`.
pub open spec fn responses_key(m: RecordModel) -> Seq<char> {
    if has_key(m.props, "response"@) {
        "response"@
    } else {
        "responses"@
    }
}

/// The dialogue variant a record describes.
pub open spec fn dialogue_of(m: RecordModel) -> Result<DialogueText, ErrorView> {
    match key_check(m, seq!["text"@], seq![responses_key(m), "requires"@]) {
        Some(e) => Err(e),
        None => match required_value(m, "text"@) {
            Err(e) => Err(e),
            Ok(text) => match id_list(m, responses_key(m)) {
                Err(e) => Err(e),
                Ok(responses) => match requirements_of(m) {
                    Err(e) => Err(e),
                    Ok(reqs) => match id_name(m) {
                        Err(e) => Err(e),
                        Ok(name) => Ok(DialogueText { name, variant: m.variant, text, responses, requires: reqs }),
                    },
                },
            },
        },
    }
}

pub open spec fn dialogues_step() -> spec_fn((Option<Seq<char>>, PropsModel)) -> Step<DialogueText> {
    |sec: (Option<Seq<char>>, PropsModel)| kind_step(sec, EntitySection::Dialogue, |m: RecordModel| dialogue_of(m))
}

/// The dialogue variants of a document, in order, or the first error.
pub open spec fn dialogues_of(d: IniModel) -> Result<Seq<DialogueText>, ErrorView> {
    fold_steps(d, d.len() as int, dialogues_step())
}

fn dialogue_from_record(rec: UnverifiedRecord) -> (r: Result<DialogueRaw, Application>)
    ensures
        match dialogue_of(rec.model()) {
            Ok(x) => r is Ok && dialogue_raw_view(r->Ok_0) == x,
            Err(e) => r is Err && r->Err_0@ == e,
        },
{
    let key = if rec.contains_key("response") { "response" } else { "responses" };
    proof {
        reveal_strlit("response");
        reveal_strlit("responses");
    }
    assert(key@ == responses_key(rec.model()));
    let required: [&str; 1] = ["text"];
    let optional: [&str; 2] = [key, "requires"];
    assert(strs_view(required@) =~= seq!["text"@]);
    assert(strs_view(optional@) =~= seq![responses_key(rec.model()), "requires"@]);
    let record = rec.into_record(&required, &optional)?;
    let text = text::owned(record.require("text")?.as_str());
    let responses = id_list_of(&record, key)?;
    let reqs = parse_requirements(&record)?;
    let name = record.parse_name::<Identifier>()?;
    let variant = match record.variant() {
        Some(v) => Some(v.clone()),
        None => None,
    };
    Ok(DialogueRaw { name, variant, text, responses, requires: reqs })
}

/// Every dialogue variant of the document, in order (`[Dialogue:name|variant]` sections).
pub fn parse_dialogues(doc: &IniDoc) -> (r: Result<Vec<DialogueRaw>, Application>)
    ensures
        match dialogues_of(doc@) {
            Ok(s) => r is Ok && dialogues_raw_view(r->Ok_0@) == s,
            Err(e) => r is Err && r->Err_0@ == e,
        },
{
    let mut list: Vec<DialogueRaw> = Vec::new();
    let mut i: usize = 0;
    assert(dialogues_raw_view(list@) =~= Seq::<DialogueText>::empty());
    while i < doc.sections.len()
        invariant
            i <= doc@.len(),
            fold_steps(doc@, i as int, dialogues_step()) == Ok::<Seq<DialogueText>, ErrorView>(dialogues_raw_view(list@)),
        decreases doc.sections.len() - i,
    {
        let sec = &doc.sections[i];
        assert(doc@[i as int] == sec@);
        let ghost before = dialogues_raw_view(list@);
        assert(fold_steps(doc@, i + 1, dialogues_step()) == match dialogues_step()(doc@[i as int]) {
            Step::Skip => Ok(before),
            Step::Take(x) => Ok(before.push(x)),
            Step::Fail(e) => Err(e),
        });
        if let Some(name) = &sec.name {
            match UnverifiedRecord::try_new(name.as_str(), &sec.properties) {
                Err(e) => {
                    proof {
                        lemma_fold_err(doc@, i + 1, doc@.len() as int, dialogues_step());
                    }
                    return Err(e);
                },
                Ok(rec) => {
                    if rec.section == EntitySection::Dialogue {
                        match dialogue_from_record(rec) {
                            Err(e) => {
                                proof {
                                    lemma_fold_err(doc@, i + 1, doc@.len() as int, dialogues_step());
                                }
                                return Err(e);
                            },
                            Ok(x) => {
                                list.push(x);
                                assert(dialogues_raw_view(list@) =~= before.push(dialogue_raw_view(x)));
                            },
                        }
                    }
                },
            }
        }
        i += 1;
    }
    Ok(list)
}

} // verus!
