//! Responses: `[Response:name]` with `text` and optional `leads_to`, `triggers`, `requires`.

use vstd::prelude::*;

use crate::config::ini_doc::{IniDoc, IniModel, PropsModel};
use crate::config::iter::{fold_steps, kind_step, lemma_fold_err, Step};
use crate::config::requirement::{parse_requirements, requirements_of, requirements_raw_view, RequirementText};
use crate::config::section::{
    id_name, key_check, opt_id_view, optional_id, required_value, strs_view, EntitySection, RecordModel,
    UnverifiedRecord,
};
use crate::entity::ResponseRaw;
use crate::error::{Application, ErrorView};
use crate::names::Identifier;
use crate::text;

verus! {

/// A response as text.
pub struct ResponseText {
    pub name: Seq<char>,
    pub text: Seq<char>,
    pub leads_to: Option<Seq<char>>,
    pub triggers: Option<Seq<char>>,
    pub requires: Seq<RequirementText>,
}

pub open spec fn response_raw_view(r: ResponseRaw) -> ResponseText {
    ResponseText {
        name: r.name@,
        text: r.text@,
        leads_to: opt_id_view(r.leads_to),
        triggers: opt_id_view(r.triggers),
        requires: requirements_raw_view(r.requires@),
    }
}

pub open spec fn responses_raw_view(v: Seq<ResponseRaw>) -> Seq<ResponseText> {
    v.map_values(|r: ResponseRaw| response_raw_view(r))
}

/// The response a record describes.
pub open spec fn response_of(m: RecordModel) -> Result<ResponseText, ErrorView> {
    match key_check(m, seq!["text"@], seq!["leads_to"@, "triggers"@, "requires"@]) {
        Some(e) => Err(e),
        None => match required_value(m, "text"@) {
            Err(e) => Err(e),
            Ok(text) => match optional_id(m, "leads_to"@) {
                Err(e) => Err(e),
                Ok(leads_to) => match optional_id(m, "triggers"@) {
                    Err(e) => Err(e),
                    Ok(triggers) => match requirements_of(m) {
                        Err(e) => Err(e),
                        Ok(reqs) => match id_name(m) {
                            Err(e) => Err(e),
                            Ok(name) => Ok(ResponseText { name, text, leads_to, triggers, requires: reqs }),
                        },
                    },
                },
            },
        },
    }
}

pub open spec fn responses_step() -> spec_fn((Option<Seq<char>>, PropsModel)) -> Step<ResponseText> {
    |sec: (Option<Seq<char>>, PropsModel)| kind_step(sec, EntitySection::Response, |m: RecordModel| response_of(m))
}

/// The responses of a document, in order, or the first error.
pub open spec fn responses_of(d: IniModel) -> Result<Seq<ResponseText>, ErrorView> {
    fold_steps(d, d.len() as int, responses_step())
}

fn response_from_record(rec: UnverifiedRecord) -> (r: Result<ResponseRaw, Application>)
    ensures
        match response_of(rec.model()) {
            Ok(x) => r is Ok && response_raw_view(r->Ok_0) == x,
            Err(e) => r is Err && r->Err_0@ == e,
        },
{
    let required: [&str; 1] = ["text"];
    let optional: [&str; 3] = ["leads_to", "triggers", "requires"];
    assert(strs_view(required@) =~= seq!["text"@]);
    assert(strs_view(optional@) =~= seq!["leads_to"@, "triggers"@, "requires"@]);
    let record = rec.into_record(&required, &optional)?;
    let text = text::owned(record.require("text")?.as_str());
    let leads_to = record.get_parsed::<Identifier>("leads_to")?;
    let triggers = record.get_parsed::<Identifier>("triggers")?;
    let reqs = parse_requirements(&record)?;
    let name = record.parse_name::<Identifier>()?;
    Ok(ResponseRaw { name, text, leads_to, triggers, requires: reqs })
}

/// Every response of the document, in order (`[Response:name]` sections).
pub fn parse_responses(doc: &IniDoc) -> (r: Result<Vec<ResponseRaw>, Application>)
    ensures
        match responses_of(doc@) {
            Ok(s) => r is Ok && responses_raw_view(r->Ok_0@) == s,
            Err(e) => r is Err && r->Err_0@ == e,
        },
{
    let mut list: Vec<ResponseRaw> = Vec::new();
    let mut i: usize = 0;
    assert(responses_raw_view(list@) =~= Seq::<ResponseText>::empty());
    while i < doc.sections.len()
        invariant
            i <= doc@.len(),
            fold_steps(doc@, i as int, responses_step()) == Ok::<Seq<ResponseText>, ErrorView>(responses_raw_view(list@)),
        decreases doc.sections.len() - i,
    {
        let sec = &doc.sections[i];
        assert(doc@[i as int] == sec@);
        let ghost before = responses_raw_view(list@);
        assert(fold_steps(doc@, i + 1, responses_step()) == match responses_step()(doc@[i as int]) {
            Step::Skip => Ok(before),
            Step::Take(x) => Ok(before.push(x)),
            Step::Fail(e) => Err(e),
        });
        if let Some(name) = &sec.name {
            match UnverifiedRecord::try_new(name.as_str(), &sec.properties) {
                Err(e) => {
                    proof {
                        lemma_fold_err(doc@, i + 1, doc@.len() as int, responses_step());
                    }
                    return Err(e);
                },
                Ok(rec) => {
                    if rec.section == EntitySection::Response {
                        match response_from_record(rec) {
                            Err(e) => {
                                proof {
                                    lemma_fold_err(doc@, i + 1, doc@.len() as int, responses_step());
                                }
                                return Err(e);
                            },
                            Ok(x) => {
                                list.push(x);
                                assert(responses_raw_view(list@) =~= before.push(response_raw_view(x)));
                            },
                        }
                    }
                },
            }
        }
        i += 1;
    }
    Ok(list)
}

} // verus!
