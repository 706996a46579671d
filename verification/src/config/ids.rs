//! Turning entity names into indices.
//!
//! Plain entities get the index of their position in their list; when a name occurs
//! twice, the later entity wins. Rooms and dialogues come in variants: entities are
//! numbered in the order their names first occur, the default variant of each is 0, and
//! the named variants of an entity are numbered from 1 in the order they occur, every
//! occurrence counting; when a name and variant occur twice, the later one wins.

use vstd::prelude::*;

use crate::config::dialogue::{dialogue_raw_view, DialogueText};
use crate::config::room::{room_raw_view, RoomText};
use crate::entity::{DialogueRaw, RoomRaw};
use crate::error::{Application, ErrorView};
use crate::text::{self, opt_string_view, texts_view};

verus! {

/// The first index of `x` in `s`, or -1.
pub open spec fn first_index<A>(s: Seq<A>, x: A) -> int
    decreases s.len(),
{
    if s.len() == 0 {
        -1
    } else if s[0] == x {
        0
    } else {
        let p = first_index(s.drop_first(), x);
        if p < 0 { -1 } else { p + 1 }
    }
}

pub proof fn lemma_first_index<A>(s: Seq<A>, x: A)
    ensures
        -1 <= first_index(s, x) < s.len(),
        first_index(s, x) >= 0 ==> s[first_index(s, x)] == x,
        first_index(s, x) < 0 <==> !s.contains(x),
        forall|j: int| 0 <= j < first_index(s, x) ==> s[j] != x,
    decreases s.len(),
{
    if s.len() > 0 && s[0] != x {
        lemma_first_index(s.drop_first(), x);
        if s.contains(x) {
            let j = choose|j: int| 0 <= j < s.len() && s[j] == x;
            assert(s.drop_first()[j - 1] == x);
        }
        if s.drop_first().contains(x) {
            let j = choose|j: int| 0 <= j < s.drop_first().len() && s.drop_first()[j] == x;
            assert(s[j + 1] == x);
        }
        assert forall|j: int| 0 <= j < first_index(s, x) implies s[j] != x by {
            if j > 0 {
                assert(s[j] == s.drop_first()[j - 1]);
            }
        }
    } else if s.len() > 0 {
        assert(s.contains(x)) by {
            assert(s[0] == x);
        }
    }
}

pub proof fn lemma_first_index_is<A>(s: Seq<A>, x: A, i: int)
    requires
        0 <= i < s.len(),
        s[i] == x,
        forall|j: int| 0 <= j < i ==> s[j] != x,
    ensures
        first_index(s, x) == i,
{
    lemma_first_index(s, x);
    let p = first_index(s, x);
    assert(s.contains(x)) by {
        assert(s[i] == x);
    }
    if p < i {
        assert(s[p] != x);
    } else if i < p {
        assert(s[i] != x);
    }
}

pub proof fn lemma_first_index_push<A>(s: Seq<A>, y: A, x: A)
    requires
        s.contains(x),
    ensures
        first_index(s.push(y), x) == first_index(s, x),
{
    lemma_first_index(s, x);
    let p = first_index(s, x);
    assert forall|j: int| 0 <= j < p implies s.push(y)[j] != x by {
        assert(s.push(y)[j] == s[j]);
    }
    lemma_first_index_is(s.push(y), x, p);
}

/// The last index of `x` in `s`, or -1.
pub open spec fn last_index<A>(s: Seq<A>, x: A) -> int
    decreases s.len(),
{
    if s.len() == 0 {
        -1
    } else if s.last() == x {
        s.len() - 1
    } else {
        last_index(s.drop_last(), x)
    }
}

pub proof fn lemma_last_index<A>(s: Seq<A>, x: A)
    ensures
        -1 <= last_index(s, x) < s.len(),
        last_index(s, x) >= 0 ==> s[last_index(s, x)] == x,
        last_index(s, x) < 0 <==> !s.contains(x),
        forall|j: int| last_index(s, x) < j < s.len() ==> s[j] != x,
    decreases s.len(),
{
    if s.len() > 0 && s.last() != x {
        lemma_last_index(s.drop_last(), x);
        if s.contains(x) {
            let j = choose|j: int| 0 <= j < s.len() && s[j] == x;
            assert(s.drop_last()[j] == x);
        }
        if s.drop_last().contains(x) {
            let j = choose|j: int| 0 <= j < s.drop_last().len() && s.drop_last()[j] == x;
            assert(s[j] == x);
        }
        assert forall|j: int| last_index(s, x) < j < s.len() implies s[j] != x by {
            if j < s.len() - 1 {
                assert(s[j] == s.drop_last()[j]);
            }
        }
    } else if s.len() > 0 {
        assert(s.contains(x)) by {
            assert(s[s.len() - 1] == x);
        }
    }
}

// ---------------------------------------------------------------- plain entities

/// The index of each name of a list; a repeated name keeps its last index.
pub struct NameIndex {
    pub names: Vec<String>,
}

impl NameIndex {
    pub open spec fn view(&self) -> Seq<Seq<char>> {
        texts_view(self.names@)
    }

    pub fn new(names: Vec<String>) -> (m: NameIndex)
        ensures
            m.view() == texts_view(names@),
    {
        NameIndex { names }
    }

    /// The index of `name`: the last entity with that name, or
    /// `EntityNotFound` with the given entity type.
    pub fn require(&self, etype: &str, name: &str) -> (r: Result<usize, Application>)
        ensures
            ({
                let i = last_index(self.view(), name@);
                if i >= 0 {
                    r == Ok::<usize, Application>(i as usize)
                } else {
                    r is Err && r->Err_0@ == (ErrorView::EntityNotFound { etype: etype@, id: name@ })
                }
            }),
    {
        let ghost s = self.view();
        let mut i: usize = self.names.len();
        proof {
            lemma_last_index(s, name@);
        }
        while i > 0
            invariant
                s == self.view(),
                i <= s.len(),
                forall|j: int| i <= j < s.len() ==> s[j] != name@,
            decreases i,
        {
            if text::same_text(self.names[i - 1].as_str(), name) {
                proof {
                    lemma_last_index(s, name@);
                    let p = last_index(s, name@);
                    if p < i - 1 {
                        assert(s[i - 1] == name@);
                    } else if p > i - 1 {
                        assert(s[p] == name@);
                    }
                }
                return Ok(i - 1);
            }
            i -= 1;
        }
        proof {
            if s.contains(name@) {
                let j = choose|j: int| 0 <= j < s.len() && s[j] == name@;
                assert(s[j] != name@);
            }
        }
        Err(Application::EntityNotFound { etype: text::owned(etype), id: text::owned(name) })
    }
}

// ---------------------------------------------------------------- entities with variants

/// A name and variant, as text.
pub type VariantKey = (Seq<char>, Option<Seq<char>>);

/// The names of `keys` in the order they first occur.
pub open spec fn distinct_names(keys: Seq<VariantKey>) -> Seq<Seq<char>>
    decreases keys.len(),
{
    if keys.len() == 0 {
        Seq::empty()
    } else {
        let d = distinct_names(keys.drop_last());
        if d.contains(keys.last().0) { d } else { d.push(keys.last().0) }
    }
}

/// How many of `keys` name `n` with a variant.
pub open spec fn variant_count(keys: Seq<VariantKey>, n: Seq<char>) -> nat
    decreases keys.len(),
{
    if keys.len() == 0 {
        0
    } else {
        variant_count(keys.drop_last(), n) + if keys.last().0 == n && keys.last().1 is Some { 1nat } else { 0nat }
    }
}

/// The index of entity `n`: its place among the names in order of first occurrence.
pub open spec fn entity_index(keys: Seq<VariantKey>, n: Seq<char>) -> int {
    first_index(distinct_names(keys), n)
}

/// The variant index of occurrence `j`: 0 for the default variant, else how many named
/// variants of the same entity occur up to and including `j`.
pub open spec fn variant_index_at(keys: Seq<VariantKey>, j: int) -> nat {
    if keys[j].1 is None {
        0
    } else {
        variant_count(keys.take(j + 1), keys[j].0)
    }
}

pub proof fn lemma_distinct_names_contains(keys: Seq<VariantKey>)
    ensures
        forall|j: int| 0 <= j < keys.len() ==> distinct_names(keys).contains(#[trigger] keys[j].0),
        forall|n: Seq<char>| distinct_names(keys).contains(n) ==> exists|j: int| 0 <= j < keys.len() && #[trigger] keys[j].0 == n,
        distinct_names(keys).len() <= keys.len(),
    decreases keys.len(),
{
    if keys.len() > 0 {
        let p = keys.drop_last();
        lemma_distinct_names_contains(p);
        let d = distinct_names(p);
        assert forall|j: int| 0 <= j < keys.len() implies distinct_names(keys).contains(#[trigger] keys[j].0) by {
            if j < keys.len() - 1 {
                assert(p[j] == keys[j]);
                assert(d.contains(p[j].0));
                if !d.contains(keys.last().0) {
                    let x = choose|x: int| 0 <= x < d.len() && d[x] == p[j].0;
                    assert(d.push(keys.last().0)[x] == p[j].0);
                }
            } else {
                if !d.contains(keys.last().0) {
                    assert(d.push(keys.last().0)[d.len() as int] == keys.last().0);
                }
            }
        }
        assert forall|n: Seq<char>| distinct_names(keys).contains(n) implies exists|j: int| 0 <= j < keys.len() && #[trigger] keys[j].0 == n by {
            if d.contains(n) {
                let j = choose|j: int| 0 <= j < p.len() && #[trigger] p[j].0 == n;
                assert(keys[j].0 == n);
            } else {
                let x = choose|x: int| 0 <= x < distinct_names(keys).len() && distinct_names(keys)[x] == n;
                assert(keys[keys.len() - 1].0 == n);
            }
        }
    }
}

/// The names and variants of a list of rooms or dialogues.
pub trait HasNameVariant {
    spec fn key(&self) -> VariantKey;

    fn name_str(&self) -> (r: &str)
        ensures
            r@ == self.key().0,
    ;

    fn variant_str(&self) -> (r: Option<&str>)
        ensures
            crate::config::ini_doc::opt_str_view(r) == self.key().1,
    ;
}

impl HasNameVariant for RoomRaw {
    open spec fn key(&self) -> VariantKey {
        (room_raw_view(*self).name, room_raw_view(*self).variant)
    }

    fn name_str(&self) -> (r: &str) {
        self.name.as_str()
    }

    fn variant_str(&self) -> (r: Option<&str>) {
        match &self.variant {
            Some(v) => Some(v.as_str()),
            None => None,
        }
    }
}

impl HasNameVariant for DialogueRaw {
    open spec fn key(&self) -> VariantKey {
        (dialogue_raw_view(*self).name, dialogue_raw_view(*self).variant)
    }

    fn name_str(&self) -> (r: &str) {
        self.name.as_str()
    }

    fn variant_str(&self) -> (r: Option<&str>) {
        match &self.variant {
            Some(v) => Some(v.as_str()),
            None => None,
        }
    }
}

pub open spec fn keys_of<T: HasNameVariant>(v: Seq<T>) -> Seq<VariantKey> {
    v.map_values(|t: T| t.key())
}

/// One occurrence of a name and variant with the indices it was given.
pub struct IdEntry {
    pub name: String,
    pub variant: Option<String>,
    pub id: usize,
    pub variant_id: usize,
}

/// The indices of the rooms or dialogues of a document, one entry per variant section.
pub struct IdMap {
    pub entries: Vec<IdEntry>,
}

impl IdMap {
    /// The names and variants, in order.
    pub open spec fn keys(&self) -> Seq<VariantKey> {
        self.entries@.map_values(|e: IdEntry| (e.name@, opt_string_view(e.variant)))
    }

    /// Each entry holds the indices its name and variant are given.
    pub open spec fn wf(&self) -> bool {
        forall|j: int|
            0 <= j < self.entries@.len() ==> {
                &&& (#[trigger] self.entries@[j]).id == entity_index(self.keys(), self.keys()[j].0)
                &&& self.entries@[j].variant_id == variant_index_at(self.keys(), j)
            }
    }
}

/// Whether the entity `n` has a default variant.
pub open spec fn has_default(keys: Seq<VariantKey>, n: Seq<char>) -> bool {
    keys.contains((n, None))
}

/// Whether the entity `n` occurs at all.
pub open spec fn has_entity(keys: Seq<VariantKey>, n: Seq<char>) -> bool {
    distinct_names(keys).contains(n)
}

/// Finds a name in a list of texts.
fn find_text(v: &Vec<String>, n: &str) -> (r: usize)
    ensures
        r == if first_index(texts_view(v@), n@) < 0 { v@.len() as int } else { first_index(texts_view(v@), n@) },
{
    let ghost s = texts_view(v@);
    let mut i: usize = 0;
    while i < v.len()
        invariant
            s == texts_view(v@),
            i <= v@.len(),
            forall|j: int| 0 <= j < i ==> s[j] != n@,
        decreases v.len() - i,
    {
        if text::same_text(v[i].as_str(), n) {
            proof {
                lemma_first_index_is(s, n@, i as int);
            }
            return i;
        }
        i += 1;
    }
    proof {
        lemma_first_index(s, n@);
        if first_index(s, n@) >= 0 {
            assert(s[first_index(s, n@)] != n@);
        }
    }
    i
}

fn copy_opt(o: Option<&str>) -> (r: Option<String>)
    ensures
        opt_string_view(r) == crate::config::ini_doc::opt_str_view(o),
{
    match o {
        Some(s) => Some(text::owned(s)),
        None => None,
    }
}

/// Numbers the entities and variants of a list of rooms or dialogues.
pub fn map_ids<T: HasNameVariant>(list: &Vec<T>) -> (m: IdMap)
    ensures
        m.keys() == keys_of(list@),
        m.wf(),
{
    let ghost keys = keys_of(list@);
    let mut names: Vec<String> = Vec::new();
    let mut counters: Vec<usize> = Vec::new();
    let mut entries: Vec<IdEntry> = Vec::new();
    let mut i: usize = 0;
    while i < list.len()
        invariant
            keys == keys_of(list@),
            i <= list@.len(),
            texts_view(names@) == distinct_names(keys.take(i as int)),
            counters@.len() == names@.len(),
            forall|k: int|
                0 <= k < names@.len() ==> #[trigger] counters@[k] == variant_count(keys.take(i as int), names@[k]@),
            entries@.len() == i,
            forall|j: int|
                0 <= j < i ==> {
                    &&& (#[trigger] entries@[j]).name@ == keys[j].0
                    &&& opt_string_view(entries@[j].variant) == keys[j].1
                    &&& entries@[j].id == first_index(distinct_names(keys.take(i as int)), keys[j].0)
                    &&& entries@[j].variant_id == variant_index_at(keys, j)
                },
        decreases list.len() - i,
    {
        let ghost pre = keys.take(i as int);
        let ghost next = keys.take(i + 1);
        assert(next.drop_last() == pre);
        assert(next.last() == keys[i as int]);
        assert(keys[i as int] == list@[i as int].key());
        proof {
            lemma_distinct_names_contains(pre);
            lemma_distinct_names_contains(next);
        }
        let n = list[i].name_str();
        let v = list[i].variant_str();
        let k = find_text(&names, n);
        if k == names.len() {
            proof {
                lemma_first_index(texts_view(names@), n@);
                lemma_variant_count_absent(pre, n@);
            }
            names.push(text::owned(n));
            counters.push(0);
            assert(texts_view(names@) =~= distinct_names(next));
        } else {
            proof {
                lemma_first_index(texts_view(names@), n@);
            }
            assert(texts_view(names@) == distinct_names(next));
        }
        proof {
            lemma_first_index(texts_view(names@), n@);
            lemma_first_index(distinct_names(next), n@);
            assert(distinct_names(next)[k as int] == n@);
            assert forall|j: int| 0 <= j < k implies distinct_names(next)[j] != n@ by {
                assert(distinct_names(next)[j] == texts_view(names@)[j]);
            }
            lemma_first_index_is(distinct_names(next), n@, k as int);
        }
        let vid: usize;
        if v.is_some() {
            assert(counters@[k as int] == variant_count(pre, n@));
            assert(variant_count(next, n@) == variant_count(pre, n@) + 1);
            assert(counters@[k as int] <= i) by {
                lemma_variant_count_bound(pre, n@);
            }
            vid = counters[k] + 1;
            counters.set(k, vid);
        } else {
            vid = 0;
        }
        proof {
            assert(keys.take(i + 1) == next);
            assert forall|q: int| 0 <= q < names@.len() implies #[trigger] counters@[q] == variant_count(next, names@[q]@) by {
                if q != k {
                    assert(names@[q]@ != n@) by {
                        assert(texts_view(names@)[q] == names@[q]@);
                        assert(texts_view(names@)[k as int] == n@);
                        lemma_distinct_names_unique(next, q, k as int);
                    }
                    assert(variant_count(next, names@[q]@) == variant_count(pre, names@[q]@));
                } else {
                    assert(names@[q]@ == n@) by {
                        assert(texts_view(names@)[q] == names@[q]@);
                    }
                }
            }
        }
        entries.push(IdEntry { name: text::owned(n), variant: copy_opt(v), id: k, variant_id: vid });
        proof {
            assert forall|j: int| 0 <= j < i + 1 implies {
                &&& (#[trigger] entries@[j]).name@ == keys[j].0
                &&& opt_string_view(entries@[j].variant) == keys[j].1
                &&& entries@[j].id == first_index(distinct_names(keys.take(i + 1)), keys[j].0)
                &&& entries@[j].variant_id == variant_index_at(keys, j)
            } by {
                if j < i {
                    assert(pre[j] == keys[j]);
                    assert(distinct_names(pre).contains(keys[j].0));
                    if distinct_names(next) != distinct_names(pre) {
                        lemma_first_index_push(distinct_names(pre), n@, keys[j].0);
                    }
                } else {
                    assert(keys.take(i + 1) == next);
                }
            }
        }
        i += 1;
    }
    let m = IdMap { entries };
    assert(keys.take(list@.len() as int) == keys);
    assert(m.keys() =~= keys);
    m
}

pub proof fn lemma_variant_count_absent(keys: Seq<VariantKey>, n: Seq<char>)
    requires
        !distinct_names(keys).contains(n),
    ensures
        variant_count(keys, n) == 0,
    decreases keys.len(),
{
    if keys.len() > 0 {
        lemma_distinct_names_contains(keys);
        assert(keys.last().0 != n) by {
            assert(distinct_names(keys).contains(keys[keys.len() - 1].0));
        }
        let d = distinct_names(keys.drop_last());
        assert(!d.contains(n)) by {
            if d.contains(n) {
                let x = choose|x: int| 0 <= x < d.len() && d[x] == n;
                if !d.contains(keys.last().0) {
                    assert(d.push(keys.last().0)[x] == n);
                }
            }
        }
        lemma_variant_count_absent(keys.drop_last(), n);
    }
}

pub proof fn lemma_variant_count_bound(keys: Seq<VariantKey>, n: Seq<char>)
    ensures
        variant_count(keys, n) <= keys.len(),
    decreases keys.len(),
{
    if keys.len() > 0 {
        lemma_variant_count_bound(keys.drop_last(), n);
    }
}

pub proof fn lemma_distinct_names_unique(keys: Seq<VariantKey>, a: int, b: int)
    requires
        0 <= a < distinct_names(keys).len(),
        0 <= b < distinct_names(keys).len(),
        a != b,
    ensures
        distinct_names(keys)[a] != distinct_names(keys)[b],
    decreases keys.len(),
{
    if keys.len() > 0 {
        let d = distinct_names(keys.drop_last());
        if d.contains(keys.last().0) {
            lemma_distinct_names_unique(keys.drop_last(), a, b);
        } else {
            if a < d.len() && b < d.len() {
                lemma_distinct_names_unique(keys.drop_last(), a, b);
            } else if a == d.len() {
                assert(d[b] != keys.last().0);
            } else {
                assert(d[a] != keys.last().0);
            }
        }
    }
}

} // verus!

verus! {

/// The index of entity `n`, or why there is none.
pub open spec fn id_lookup(keys: Seq<VariantKey>, etype: Seq<char>, default_etype: Seq<char>, n: Seq<char>) -> Result<usize, ErrorView> {
    if !has_entity(keys, n) {
        Err(ErrorView::EntityNotFound { etype, id: n })
    } else if !has_default(keys, n) {
        Err(ErrorView::DefaultEntityNotFound { etype: default_etype, id: n })
    } else {
        Ok(entity_index(keys, n) as usize)
    }
}

/// The index of variant `v` of entity `n`, none for the default variant, or why there
/// is none.
pub open spec fn variant_lookup(keys: Seq<VariantKey>, etype: Seq<char>, n: Seq<char>, v: Option<Seq<char>>) -> Result<Option<usize>, ErrorView> {
    match v {
        None => Ok(None),
        Some(t) => if !has_entity(keys, n) {
            Err(ErrorView::EntityNotFound { etype, id: n })
        } else if !keys.contains((n, Some(t))) {
            Err(ErrorView::EntityVariantNotFound { etype, id: n, variant: t })
        } else {
            Ok(Some(variant_index_at(keys, last_index(keys, (n, Some(t)))) as usize))
        },
    }
}

pub proof fn lemma_has_entity(keys: Seq<VariantKey>, n: Seq<char>)
    ensures
        has_entity(keys, n) <==> exists|j: int| 0 <= j < keys.len() && #[trigger] keys[j].0 == n,
{
    lemma_distinct_names_contains(keys);
    if exists|j: int| 0 <= j < keys.len() && #[trigger] keys[j].0 == n {
        let j = choose|j: int| 0 <= j < keys.len() && #[trigger] keys[j].0 == n;
        assert(distinct_names(keys).contains(keys[j].0));
    }
}

impl IdMap {
    /// Whether some entry names `name`.
    fn has_name(&self, name: &str) -> (b: bool)
        ensures
            b == exists|j: int| 0 <= j < self.keys().len() && #[trigger] self.keys()[j].0 == name@,
    {
        let mut i: usize = 0;
        while i < self.entries.len()
            invariant
                i <= self.entries@.len(),
                forall|j: int| 0 <= j < i ==> #[trigger] self.keys()[j].0 != name@,
            decreases self.entries.len() - i,
        {
            assert(self.keys()[i as int].0 == self.entries@[i as int].name@);
            if text::same_text(self.entries[i].name.as_str(), name) {
                return true;
            }
            i += 1;
        }
        false
    }

    /// The index of entity `name`.
    pub fn get_id(&self, etype: &str, default_etype: &str, name: &str) -> (r: Result<usize, Application>)
        requires
            self.wf(),
        ensures
            match id_lookup(self.keys(), etype@, default_etype@, name@) {
                Ok(i) => r == Ok::<usize, Application>(i),
                Err(e) => r is Err && r->Err_0@ == e,
            },
    {
        proof {
            lemma_has_entity(self.keys(), name@);
        }
        if !self.has_name(name) {
            return Err(Application::EntityNotFound { etype: text::owned(etype), id: text::owned(name) });
        }
        let ghost key = (name@, None::<Seq<char>>);
        let mut i: usize = 0;
        while i < self.entries.len()
            invariant
                self.wf(),
                key == (name@, None::<Seq<char>>),
                i <= self.entries@.len(),
                forall|j: int| 0 <= j < i ==> #[trigger] self.keys()[j] != key,
            decreases self.entries.len() - i,
        {
            let e = &self.entries[i];
            assert(self.keys()[i as int] == (e.name@, opt_string_view(e.variant)));
            let is_default = match &e.variant {
                None => true,
                Some(_) => false,
            };
            if is_default && text::same_text(e.name.as_str(), name) {
                assert(opt_string_view(e.variant) == None::<Seq<char>>);
                assert(e.name@ == name@);
                assert(self.keys()[i as int] == key);
                assert(self.keys().contains(key));
                proof {
                    lemma_has_entity(self.keys(), name@);
                }
                return Ok(e.id);
            }
            i += 1;
        }
        proof {
            if self.keys().contains(key) {
                let j = choose|j: int| 0 <= j < self.keys().len() && self.keys()[j] == key;
                assert(self.keys()[j] != key);
            }
        }
        Err(Application::DefaultEntityNotFound { etype: text::owned(default_etype), id: text::owned(name) })
    }

    /// The index of variant `variant` of entity `name`; none for the default variant.
    pub fn get_variant_id(&self, etype: &str, name: &str, variant: Option<&str>) -> (r: Result<Option<usize>, Application>)
        requires
            self.wf(),
        ensures
            match variant_lookup(self.keys(), etype@, name@, crate::config::ini_doc::opt_str_view(variant)) {
                Ok(i) => r == Ok::<Option<usize>, Application>(i),
                Err(e) => r is Err && r->Err_0@ == e,
            },
    {
        let v = match variant {
            None => {
                return Ok(None);
            },
            Some(v) => v,
        };
        proof {
            lemma_has_entity(self.keys(), name@);
        }
        if !self.has_name(name) {
            return Err(Application::EntityNotFound { etype: text::owned(etype), id: text::owned(name) });
        }
        let ghost key = (name@, Some(v@));
        let ghost ks = self.keys();
        let mut i: usize = self.entries.len();
        proof {
            lemma_last_index(ks, key);
        }
        while i > 0
            invariant
                self.wf(),
                key == (name@, Some(v@)),
                crate::config::ini_doc::opt_str_view(variant) == Some(v@),
                ks == self.keys(),
                i <= self.entries@.len(),
                forall|j: int| i <= j < ks.len() ==> #[trigger] ks[j] != key,
            decreases i,
        {
            let e = &self.entries[i - 1];
            assert(ks[i - 1] == (e.name@, opt_string_view(e.variant)));
            let same = match &e.variant {
                Some(x) => text::same_text(x.as_str(), v) && text::same_text(e.name.as_str(), name),
                None => false,
            };
            if same {
                assert(e.variant is Some);
                assert(opt_string_view(e.variant) == Some(v@));
                assert(e.name@ == name@);
                assert(ks[i - 1] == key);
                proof {
                    lemma_last_index(ks, key);
                    let p = last_index(ks, key);
                    if p < i - 1 {
                        assert(ks[i - 1] == key);
                    } else if p > i - 1 {
                        assert(ks[p] == key);
                    }
                    assert(ks.contains(key));
                    lemma_has_entity(self.keys(), name@);
                }
                return Ok(Some(e.variant_id));
            }
            i -= 1;
        }
        proof {
            if ks.contains(key) {
                let j = choose|j: int| 0 <= j < ks.len() && ks[j] == key;
                assert(ks[j] != key);
            }
        }
        Err(
            Application::EntityVariantNotFound {
                etype: text::owned(etype),
                id: text::owned(name),
                variant: text::owned(v),
            },
        )
    }
}

} // verus!
