//! Walking the sections of a document kind by kind.
//!
//! Each parser goes through the sections in order: the general section is skipped, a
//! section whose name does not read as a record stops the walk with its error, a record of
//! another kind is skipped, and a record of the wanted kind gives a value or an error.

use vstd::prelude::*;

use crate::config::ini_doc::{IniDoc, IniModel, PropsModel};
use crate::config::section::{record_of, EntitySection, RecordModel, UnverifiedRecord};
use crate::error::{Application, ErrorView};

verus! {

/// What a parser makes of one section.
pub enum Step<T> {
    Skip,
    Take(T),
    Fail(ErrorView),
}

/// The values that the first `n` sections give, or the first error.
pub open spec fn fold_steps<T>(
    d: IniModel,
    n: int,
    step: spec_fn((Option<Seq<char>>, PropsModel)) -> Step<T>,
) -> Result<Seq<T>, ErrorView>
    decreases n,
{
    if n <= 0 {
        Ok(Seq::empty())
    } else {
        match fold_steps(d, n - 1, step) {
            Err(e) => Err(e),
            Ok(s) => match step(d[n - 1]) {
                Step::Skip => Ok(s),
                Step::Take(x) => Ok(s.push(x)),
                Step::Fail(e) => Err(e),
            },
        }
    }
}

/// Once the walk has failed, it stays failed with the same error.
pub proof fn lemma_fold_err<T>(
    d: IniModel,
    i: int,
    n: int,
    step: spec_fn((Option<Seq<char>>, PropsModel)) -> Step<T>,
)
    requires
        0 <= i <= n,
        fold_steps(d, i, step) is Err,
    ensures
        fold_steps(d, n, step) == fold_steps(d, i, step),
    decreases n - i,
{
    if n > i {
        lemma_fold_err(d, i, n - 1, step);
    }
}

/// The step of a parser for records of `kind`, where `f` reads one record.
pub open spec fn kind_step<T>(
    sec: (Option<Seq<char>>, PropsModel),
    kind: EntitySection,
    f: spec_fn(RecordModel) -> Result<T, ErrorView>,
) -> Step<T> {
    match sec.0 {
        None => Step::Skip,
        Some(name) => match record_of(name, sec.1) {
            Err(e) => Step::Fail(e),
            Ok(m) => if m.kind == kind {
                match f(m) {
                    Ok(x) => Step::Take(x),
                    Err(e) => Step::Fail(e),
                }
            } else {
                Step::Skip
            },
        },
    }
}

/// The first record of `kind` among the first `n` sections, or the error of a section
/// name met before it.
pub open spec fn first_record(d: IniModel, n: int, kind: EntitySection) -> Option<Result<RecordModel, ErrorView>>
    decreases n,
{
    if n <= 0 {
        None
    } else {
        match first_record(d, n - 1, kind) {
            Some(r) => Some(r),
            None => match d[n - 1].0 {
                None => None,
                Some(name) => match record_of(name, d[n - 1].1) {
                    Err(e) => Some(Err(e)),
                    Ok(m) => if m.kind == kind { Some(Ok(m)) } else { None },
                },
            },
        }
    }
}

pub proof fn lemma_first_record_found(d: IniModel, i: int, n: int, kind: EntitySection)
    requires
        0 <= i <= n,
        first_record(d, i, kind) is Some,
    ensures
        first_record(d, n, kind) == first_record(d, i, kind),
    decreases n - i,
{
    if n > i {
        lemma_first_record_found(d, i, n - 1, kind);
    }
}

/// The first record of `kind` in the document, or the error
/// of a section name met before it.
pub fn first_record_of_kind<'a>(doc: &'a IniDoc, kind: EntitySection) -> (r: Option<Result<UnverifiedRecord<'a>, Application>>)
    ensures
        match first_record(doc@, doc@.len() as int, kind) {
            None => r is None,
            Some(Err(e)) => r matches Some(Err(x)) && x@ == e,
            Some(Ok(m)) => r matches Some(Ok(x)) && x.model() == m,
        },
{
    let mut i: usize = 0;
    while i < doc.sections.len()
        invariant
            i <= doc@.len(),
            first_record(doc@, i as int, kind) is None,
        decreases doc.sections.len() - i,
    {
        let sec = &doc.sections[i];
        assert(doc@[i as int] == sec@);
        match &sec.name {
            None => {},
            Some(name) => {
                let rec = UnverifiedRecord::try_new(name.as_str(), &sec.properties);
                match rec {
                    Err(e) => {
                        proof {
                            lemma_first_record_found(doc@, i + 1, doc@.len() as int, kind);
                        }
                        return Some(Err(e));
                    },
                    Ok(rec) => {
                        if rec.section == kind {
                            proof {
                                lemma_first_record_found(doc@, i + 1, doc@.len() as int, kind);
                            }
                            return Some(Ok(rec));
                        }
                    },
                }
            },
        }
        i += 1;
    }
    None
}

} // verus!

verus! {

/// `f` applied to each element in order, or the first error (`collect` into a `Result`).
pub open spec fn fold_results<A, T>(s: Seq<A>, f: spec_fn(A) -> Result<T, ErrorView>) -> Result<Seq<T>, ErrorView>
    decreases s.len(),
{
    if s.len() == 0 {
        Ok(Seq::empty())
    } else {
        match fold_results(s.drop_last(), f) {
            Err(e) => Err(e),
            Ok(p) => match f(s.last()) {
                Err(e) => Err(e),
                Ok(x) => Ok(p.push(x)),
            },
        }
    }
}

/// One more element: the prefix's result extended by the element's.
pub proof fn lemma_fold_results_step<A, T>(s: Seq<A>, i: int, f: spec_fn(A) -> Result<T, ErrorView>)
    requires
        0 <= i < s.len(),
    ensures
        fold_results(s.take(i + 1), f) == match fold_results(s.take(i), f) {
            Err(e) => Err(e),
            Ok(p) => match f(s[i]) {
                Err(e) => Err(e),
                Ok(x) => Ok(p.push(x)),
            },
        },
{
    assert(s.take(i + 1).drop_last() == s.take(i));
}

/// Once a prefix fails, the whole sequence fails with the same error.
pub proof fn lemma_fold_results_err<A, T>(s: Seq<A>, i: int, f: spec_fn(A) -> Result<T, ErrorView>)
    requires
        0 <= i <= s.len(),
        fold_results(s.take(i), f) is Err,
    ensures
        fold_results(s, f) == fold_results(s.take(i), f),
    decreases s.len() - i,
{
    if i < s.len() {
        lemma_fold_results_step(s, i, f);
        lemma_fold_results_err(s, i + 1, f);
    } else {
        assert(s.take(i) == s);
    }
}

pub proof fn lemma_fold_results_all<A, T>(s: Seq<A>, f: spec_fn(A) -> Result<T, ErrorView>)
    ensures
        fold_results(s.take(s.len() as int), f) == fold_results(s, f),
        fold_results(s.take(0), f) == Ok::<Seq<T>, ErrorView>(Seq::empty()),
{
    assert(s.take(s.len() as int) == s);
    assert(s.take(0).len() == 0);
}

/// A successful fold has one value per element, each `f` of its element.
pub proof fn lemma_fold_results_ok<A, T>(s: Seq<A>, f: spec_fn(A) -> Result<T, ErrorView>)
    requires
        fold_results(s, f) is Ok,
    ensures
        fold_results(s, f)->Ok_0.len() == s.len(),
        forall|i: int| 0 <= i < s.len() ==> f(s[i]) == Ok::<T, ErrorView>(#[trigger] fold_results(s, f)->Ok_0[i]),
    decreases s.len(),
{
    if s.len() > 0 {
        lemma_fold_results_ok(s.drop_last(), f);
        assert forall|i: int| 0 <= i < s.len() implies f(s[i]) == Ok::<T, ErrorView>(#[trigger] fold_results(s, f)->Ok_0[i]) by {
            if i < s.len() - 1 {
                assert(s[i] == s.drop_last()[i]);
            }
        }
    }
}

} // verus!
