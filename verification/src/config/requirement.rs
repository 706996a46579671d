//! Requirements: `requires=has_item:<item>,does_not_have:<item>,room_variant:<Room|variant>`.

use vstd::prelude::*;

use crate::config::iter::{fold_results, lemma_fold_results_all, lemma_fold_results_err, lemma_fold_results_step};
use crate::config::ini_doc::prop_value;
use crate::config::section::{
    opt_id_view, property_not_found, qualified_room, section_text, value_or_empty, RecordModel, Record,
};
use crate::entity::RequirementRaw;
use crate::error::{Application, ErrorView};
use crate::names::{Identifier, ParseText};
use crate::text::{self, list_entries, opt_string_view, split_once, texts_view, trim};

verus! {

/// A requirement as text.
pub enum RequirementText {
    HasItem(Seq<char>),
    RoomVariant(Seq<char>, Option<Seq<char>>),
    DoesNotHave(Seq<char>),
}

pub open spec fn requirement_raw_view(r: RequirementRaw) -> RequirementText {
    match r {
        RequirementRaw::HasItem(i) => RequirementText::HasItem(i@),
        RequirementRaw::RoomVariant(t, v) => RequirementText::RoomVariant(t@, opt_id_view(v)),
        RequirementRaw::DoesNotHave(i) => RequirementText::DoesNotHave(i@),
    }
}

pub open spec fn requirements_raw_view(v: Seq<RequirementRaw>) -> Seq<RequirementText> {
    v.map_values(|r: RequirementRaw| requirement_raw_view(r))
}

/// `s` equals a keyword written in lower case, ignoring the case of ASCII letters: each
/// character is the keyword's or the upper-case one. For keywords of ASCII lower-case
/// letters and `_` without `k` this is `s.to_lowercase() == lower`.
pub open spec fn is_keyword(s: Seq<char>, lower: Seq<char>, upper: Seq<char>) -> bool {
    &&& s.len() == lower.len()
    &&& forall|i: int| 0 <= i < s.len() ==> #[trigger] s[i] == lower[i] || s[i] == upper[i]
}

fn keyword_matches(s: &str, lower: &str, upper: &str) -> (b: bool)
    requires
        lower@.len() == upper@.len(),
    ensures
        b == is_keyword(s@, lower@, upper@),
{
    let x = text::chars_of(s);
    let l = text::chars_of(lower);
    let u = text::chars_of(upper);
    if x.len() != l.len() {
        return false;
    }
    let mut i: usize = 0;
    while i < x.len()
        invariant
            x@ == s@,
            l@ == lower@,
            u@ == upper@,
            x@.len() == l@.len(),
            l@.len() == u@.len(),
            i <= x@.len(),
            forall|j: int| 0 <= j < i ==> #[trigger] x@[j] == l@[j] || x@[j] == u@[j],
        decreases x.len() - i,
    {
        if x[i] != l[i] && x[i] != u[i] {
            return false;
        }
        i += 1;
    }
    true
}

/// An item named in a requirement, read as an identifier.
pub open spec fn requirement_item(m: RecordModel, rest: Option<Seq<char>>, property: Seq<char>) -> Result<Seq<char>, ErrorView> {
    match rest {
        None => Err(property_not_found(m, property)),
        Some(item) => if Identifier::accepts(item) {
            Ok(crate::names::snake_case_of(item))
        } else {
            Err(ErrorView::ConversionFailed { etype: section_text(m.kind), property, value: item, dtype: "Identifier"@ })
        },
    }
}

/// The requirement that the list entry `s` of record `m` states.
pub open spec fn requirement_of(m: RecordModel, s: Seq<char>) -> Result<RequirementText, ErrorView> {
    let (t, r) = split_once(s, ':');
    let kind = trim(t);
    let rest = match r {
        Some(x) => Some(trim(x)),
        None => None,
    };
    if is_keyword(kind, "has_item"@, "HAS_ITEM"@) {
        match requirement_item(m, rest, "requires:has_item:<item_id>"@) {
            Ok(i) => Ok(RequirementText::HasItem(i)),
            Err(e) => Err(e),
        }
    } else if is_keyword(kind, "does_not_have"@, "DOES_NOT_HAVE"@) {
        match requirement_item(m, rest, "requires:does_not_have:<item_id>"@) {
            Ok(i) => Ok(RequirementText::DoesNotHave(i)),
            Err(e) => Err(e),
        }
    } else if is_keyword(kind, "room_variant"@, "ROOM_VARIANT"@) {
        match rest {
            None => Err(property_not_found(m, "requires:room_variant:<room>"@)),
            Some(q) => match qualified_room(m, q) {
                Ok(rv) => Ok(RequirementText::RoomVariant(rv.0, rv.1)),
                Err(e) => Err(e),
            },
        }
    } else {
        Err(ErrorView::InvalidPropertyValue { etype: section_text(m.kind), value: s, field: "requirement"@ })
    }
}

/// The requirements that the `requires` list of record `m` states, or the first error.
pub open spec fn requirements_of(m: RecordModel) -> Result<Seq<RequirementText>, ErrorView> {
    fold_results(
        list_entries(value_or_empty(prop_value(m.props, "requires"@))),
        |s: Seq<char>| requirement_of(m, s),
    )
}

fn requirement_item_of(record: &Record, rest: &Option<String>, property: &str) -> (r: Result<Identifier, Application>)
    ensures
        match requirement_item(record.model(), opt_string_view(*rest), property@) {
            Ok(i) => r is Ok && r->Ok_0@ == i,
            Err(e) => r is Err && r->Err_0@ == e,
        },
{
    match rest {
        None => Err(
            Application::PropertyNotFound {
                etype: text::owned(record.entity_type()),
                property: text::owned(property),
                id: text::owned(record.qualified_name()),
            },
        ),
        Some(item) => match Identifier::parse_text(item.as_str()) {
            Ok(i) => Ok(i),
            Err(source) => Err(
                Application::ConversionFailed {
                    etype: text::owned(record.entity_type()),
                    property: text::owned(property),
                    source,
                },
            ),
        },
    }
}

/// Reads one requirement `kind:argument` of a record.
pub fn parse_one_requirement(record: &Record, string: &str) -> (r: Result<RequirementRaw, Application>)
    ensures
        match requirement_of(record.model(), string@) {
            Ok(q) => r is Ok && requirement_raw_view(r->Ok_0) == q,
            Err(e) => r is Err && r->Err_0@ == e,
        },
{
    let (t, rest) = text::split_once_at(string, ':');
    let kind = text::trimmed(t.as_str());
    let rest = match rest {
        Some(x) => Some(text::trimmed(x.as_str())),
        None => None,
    };
    proof {
        reveal_strlit("has_item");
        reveal_strlit("HAS_ITEM");
        reveal_strlit("does_not_have");
        reveal_strlit("DOES_NOT_HAVE");
        reveal_strlit("room_variant");
        reveal_strlit("ROOM_VARIANT");
    }
    if keyword_matches(kind.as_str(), "has_item", "HAS_ITEM") {
        let item = requirement_item_of(record, &rest, "requires:has_item:<item_id>")?;
        Ok(RequirementRaw::HasItem(item))
    } else if keyword_matches(kind.as_str(), "does_not_have", "DOES_NOT_HAVE") {
        let item = requirement_item_of(record, &rest, "requires:does_not_have:<item_id>")?;
        Ok(RequirementRaw::DoesNotHave(item))
    } else if keyword_matches(kind.as_str(), "room_variant", "ROOM_VARIANT") {
        match rest {
            None => Err(
                Application::PropertyNotFound {
                    etype: text::owned(record.entity_type()),
                    property: text::owned("requires:room_variant:<room>"),
                    id: text::owned(record.qualified_name()),
                },
            ),
            Some(q) => {
                let (room, variant) = record.parse_qualified_name(q.as_str())?;
                Ok(RequirementRaw::RoomVariant(room, variant))
            },
        }
    } else {
        Err(
            Application::InvalidPropertyValue {
                etype: text::owned(record.entity_type()),
                value: text::owned(string),
                field: text::owned("requirement"),
            },
        )
    }
}

/// Reads the `requires` list of a record.
pub fn parse_requirements(record: &Record) -> (r: Result<Vec<RequirementRaw>, Application>)
    ensures
        match requirements_of(record.model()) {
            Ok(s) => r is Ok && requirements_raw_view(r->Ok_0@) == s,
            Err(e) => r is Err && r->Err_0@ == e,
        },
{
    let list = record.get_list("requires");
    let ghost entries = texts_view(list@);
    let ghost f = |s: Seq<char>| requirement_of(record.model(), s);
    let mut out: Vec<RequirementRaw> = Vec::new();
    let mut i: usize = 0;
    proof {
        lemma_fold_results_all(entries, f);
    }
    assert(requirements_raw_view(out@) =~= Seq::<RequirementText>::empty());
    while i < list.len()
        invariant
            entries == texts_view(list@),
            entries == list_entries(value_or_empty(prop_value(record.model().props, "requires"@))),
            f == (|s: Seq<char>| requirement_of(record.model(), s)),
            i <= list@.len(),
            fold_results(entries.take(i as int), f) == Ok::<Seq<RequirementText>, ErrorView>(requirements_raw_view(out@)),
        decreases list.len() - i,
    {
        proof {
            lemma_fold_results_step(entries, i as int, f);
        }
        assert(entries[i as int] == list@[i as int]@);
        match parse_one_requirement(record, list[i].as_str()) {
            Err(e) => {
                proof {
                    lemma_fold_results_err(entries, i + 1, f);
                }
                return Err(e);
            },
            Ok(q) => {
                let ghost before = requirements_raw_view(out@);
                out.push(q);
                assert(requirements_raw_view(out@) =~= before.push(requirement_raw_view(q)));
            },
        }
        i += 1;
    }
    proof {
        lemma_fold_results_all(entries, f);
    }
    Ok(out)
}

} // verus!
