//! The ordered exit tables of rooms, kept in `indexmap::IndexMap`.

use indexmap::IndexMap;
use vstd::prelude::*;

use crate::ids::RoomId;
use crate::names::{Identifier, Title};

verus! {

#[verifier::external_type_specification]
#[verifier::external_body]
#[verifier::reject_recursive_types(K)]
#[verifier::reject_recursive_types(V)]
#[verifier::reject_recursive_types(S)]
pub struct ExIndexMap<K, V, S>(IndexMap<K, V, S>);

/// The entries of a room's exit table, in order: direction and destination room.
pub uninterp spec fn exit_entries(m: IndexMap<Identifier, RoomId>) -> Seq<(Seq<char>, usize)>;

/// The entries of a parsed exit table, in order: direction and destination room name.
pub uninterp spec fn raw_exit_entries(m: IndexMap<Identifier, Title>) -> Seq<(Seq<char>, Seq<char>)>;

/// The first position of key `k` in `s`, or -1.
pub open spec fn key_position<K, V>(s: Seq<(K, V)>, k: K) -> int
    decreases s.len(),
{
    if s.len() == 0 {
        -1
    } else if s[0].0 == k {
        0
    } else {
        let p = key_position(s.drop_first(), k);
        if p < 0 { -1 } else { p + 1 }
    }
}

/// `IndexMap::insert`: an existing key keeps its place and gets the new value,
/// a new key goes last.
pub open spec fn inserted<K, V>(s: Seq<(K, V)>, k: K, v: V) -> Seq<(K, V)> {
    let p = key_position(s, k);
    if p < 0 {
        s.push((k, v))
    } else {
        s.update(p, (k, v))
    }
}

pub proof fn lemma_key_position<K, V>(s: Seq<(K, V)>, k: K)
    ensures
        -1 <= key_position(s, k) < s.len(),
        key_position(s, k) >= 0 ==> s[key_position(s, k)].0 == k,
        key_position(s, k) < 0 ==> forall|i: int| 0 <= i < s.len() ==> #[trigger] s[i].0 != k,
        forall|i: int| 0 <= i < key_position(s, k) ==> #[trigger] s[i].0 != k,
    decreases s.len(),
{
    if s.len() > 0 && s[0].0 != k {
        lemma_key_position(s.drop_first(), k);
        assert forall|i: int| 1 <= i < s.len() implies #[trigger] s[i].0 == s.drop_first()[i - 1].0 by {}
    }
}

/// The first position of `k` is `i` when `i` holds `k` and no earlier position does,
/// and it is -1 when no position holds `k`.
pub proof fn lemma_key_position_is<K, V>(s: Seq<(K, V)>, k: K, i: int)
    requires
        -1 <= i < s.len(),
        i >= 0 ==> s[i].0 == k,
        i < 0 ==> forall|j: int| 0 <= j < s.len() ==> #[trigger] s[j].0 != k,
        forall|j: int| 0 <= j < i ==> #[trigger] s[j].0 != k,
    ensures
        key_position(s, k) == i,
{
    lemma_key_position(s, k);
    let p = key_position(s, k);
    if i >= 0 && p >= 0 {
        if p < i {
            assert(s[p].0 != k);
        } else if i < p {
            assert(s[i].0 != k);
        }
    } else if i >= 0 {
        assert(s[i].0 != k);
    } else if p >= 0 {
        assert(s[p].0 != k);
    }
}

/// `IndexMap::new` for exit tables.
#[verifier::external_body]
pub(crate) fn new_exits() -> (m: IndexMap<Identifier, RoomId>)
    ensures
        exit_entries(m) == Seq::<(Seq<char>, usize)>::empty(),
{
    IndexMap::new()
}

/// `IndexMap::insert` for exit tables; keys are compared by their text, which is what the
/// `Hash` and `Eq` of `Identifier` compare.
#[verifier::external_body]
pub(crate) fn insert_exit(m: &mut IndexMap<Identifier, RoomId>, k: Identifier, v: RoomId)
    ensures
        exit_entries(*final(m)) == inserted(exit_entries(*old(m)), k@, v.0),
{
    m.insert(k, v);
}

/// `IndexMap::len` for exit tables; an `IndexMap` holds each key once, and the keys
/// are compared by their text.
#[verifier::external_body]
pub(crate) fn exits_len(m: &IndexMap<Identifier, RoomId>) -> (n: usize)
    ensures
        n == exit_entries(*m).len(),
        forall|i: int, j: int|
            0 <= i < j < n ==> #[trigger] exit_entries(*m)[i].0 != #[trigger] exit_entries(*m)[j].0,
{
    m.len()
}

/// `IndexMap::get_index` for exit tables.
#[verifier::external_body]
pub(crate) fn exit_at(m: &IndexMap<Identifier, RoomId>, i: usize) -> (r: Option<(&Identifier, &RoomId)>)
    ensures
        r is Some <==> i < exit_entries(*m).len(),
        r is Some ==> r->Some_0.0@ == exit_entries(*m)[i as int].0 && r->Some_0.1.0
            == exit_entries(*m)[i as int].1,
{
    m.get_index(i)
}

/// `IndexMap::new` for parsed exit tables.
#[verifier::external_body]
pub(crate) fn new_raw_exits() -> (m: IndexMap<Identifier, Title>)
    ensures
        raw_exit_entries(m) == Seq::<(Seq<char>, Seq<char>)>::empty(),
{
    IndexMap::new()
}

/// `IndexMap::insert` for parsed exit tables; keys are compared by their text.
#[verifier::external_body]
pub(crate) fn insert_raw_exit(m: &mut IndexMap<Identifier, Title>, k: Identifier, v: Title)
    ensures
        raw_exit_entries(*final(m)) == inserted(raw_exit_entries(*old(m)), k@, v@),
{
    m.insert(k, v);
}

/// `IndexMap::len` for parsed exit tables; an `IndexMap` holds each key once, and the
/// keys are compared by their text.
#[verifier::external_body]
pub(crate) fn raw_exits_len(m: &IndexMap<Identifier, Title>) -> (n: usize)
    ensures
        n == raw_exit_entries(*m).len(),
        forall|i: int, j: int|
            0 <= i < j < n ==> #[trigger] raw_exit_entries(*m)[i].0
                != #[trigger] raw_exit_entries(*m)[j].0,
{
    m.len()
}

/// `IndexMap::get_index` for parsed exit tables.
#[verifier::external_body]
pub(crate) fn raw_exit_at(m: &IndexMap<Identifier, Title>, i: usize) -> (r: Option<(&Identifier, &Title)>)
    ensures
        r is Some <==> i < raw_exit_entries(*m).len(),
        r is Some ==> r->Some_0.0@ == raw_exit_entries(*m)[i as int].0 && r->Some_0.1@
            == raw_exit_entries(*m)[i as int].1,
{
    m.get_index(i)
}

} // verus!
