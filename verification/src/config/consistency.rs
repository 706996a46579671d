//! The world a document describes can be played: every reference in it lines up, every
//! room and dialogue has its variants at the indices its references use.

use vstd::prelude::*;

use crate::config::ids::{
    distinct_names, entity_index, first_index, has_default, last_index, lemma_distinct_names_contains,
    lemma_distinct_names_unique, lemma_first_index, lemma_first_index_is, lemma_last_index, lemma_variant_count_absent, variant_count,
    variant_index_at, VariantKey,
};
use crate::config::dialogue::{dialogues_of, dialogues_step, DialogueText};
use crate::config::iter::{fold_results, fold_steps, lemma_fold_results_ok, Step};
use crate::config::requirement::RequirementText;
use crate::config::resolve::{
    action_ref, action_ref_of, action_refs, character_ref_of, opt_item_ref, response_ref_of, character_ref, character_refs, dialogue_ref, dialogue_variant_ref_of,
    exit_ref, exits_ref, filled, group_dialogues, group_rooms, placed, slotted_dialogues, slotted_rooms, item_ref, item_refs, requirement_ref, requirement_refs,
    response_ref, response_refs, room_ref, room_variant_ref_of, ActionModel, DialogueVariantModel,
    Lookups, RoomVariantModel,
};
use crate::config::room::inserted_all;
use crate::config::action::{actions_of, ActionText};
use crate::config::ini_doc::{IniModel, PropsModel};
use crate::config::item::{items_of, items_step};
use crate::config::title::{language_of, theme_of, title_of};
use crate::config::response::{responses_of, ResponseText};
use crate::config::character::characters_of;
use crate::config::{
    lookups_from, model_lines_up, parse_spec, resolve_spec, first_nested_sequence, first_sequence_child, is_sequence_at, model_action_ok, model_dialogue_variant_ok,
    model_opt_item_ok, model_requirement_ok, model_requirements_ok, model_response_ok, model_room_variant_ok,
    WorldModel,
};
use crate::entity::Requirement;
use crate::exits::{inserted, lemma_key_position};
use crate::ids::{ActionId, CharacterId, ItemId, ResponseId};
use crate::config::room::{rooms_of, rooms_step, RoomText};
use crate::error::ErrorView;

verus! {

/// The slots filled from the first `n` sections: one group per name, in the order the
/// names first occur; each group one slot longer than the named variants of its name so
/// far, every named slot filled, the default slot filled once the default section has
/// come, and each value in a slot meeting `p`.
pub open spec fn slots_fit<V>(keys: Seq<VariantKey>, n: int, acc: Seq<Seq<Option<V>>>, p: spec_fn(V) -> bool) -> bool {
    let pk = keys.take(n);
    let d = distinct_names(pk);
    &&& acc.len() == d.len()
    &&& forall|g: int| 0 <= g < acc.len() ==> (#[trigger] acc[g]).len() == 1 + variant_count(pk, d[g])
    &&& forall|g: int, v: int| 0 <= g < acc.len() && 0 < v < acc[g].len() ==> (#[trigger] acc[g][v]) is Some
    &&& forall|g: int|
        0 <= g < acc.len() ==> ((#[trigger] acc[g])[0] is Some <==> pk.contains((d[g], None::<Seq<char>>)))
    &&& forall|g: int, v: int|
        0 <= g < acc.len() && 0 <= v < acc[g].len() && (#[trigger] acc[g][v]) is Some ==> p(acc[g][v]->Some_0)
}

proof fn lemma_distinct_step(keys: Seq<VariantKey>, n: int)
    requires
        0 <= n < keys.len(),
    ensures
        distinct_names(keys.take(n + 1)) == (if distinct_names(keys.take(n)).contains(keys[n].0) {
            distinct_names(keys.take(n))
        } else {
            distinct_names(keys.take(n)).push(keys[n].0)
        }),
{
    assert(keys.take(n + 1).drop_last() =~= keys.take(n));
}

proof fn lemma_distinct_prefix(keys: Seq<VariantKey>, n: int)
    requires
        0 <= n <= keys.len(),
    ensures
        distinct_names(keys.take(n)).len() <= distinct_names(keys).len(),
        forall|i: int|
            0 <= i < distinct_names(keys.take(n)).len() ==> #[trigger] distinct_names(keys)[i] == distinct_names(
                keys.take(n),
            )[i],
    decreases keys.len() - n,
{
    if n == keys.len() {
        assert(keys.take(n) =~= keys);
    } else {
        lemma_distinct_step(keys, n);
        lemma_distinct_prefix(keys, n + 1);
        let a = distinct_names(keys.take(n));
        let b = distinct_names(keys.take(n + 1));
        assert forall|i: int| 0 <= i < a.len() implies #[trigger] distinct_names(keys)[i] == a[i] by {
            assert(b[i] == a[i]);
            assert(distinct_names(keys)[i] == b[i]);
        }
    }
}

proof fn lemma_entity_index_known(keys: Seq<VariantKey>, n: int, x: Seq<char>)
    requires
        0 <= n <= keys.len(),
        distinct_names(keys.take(n)).contains(x),
    ensures
        entity_index(keys, x) == first_index(distinct_names(keys.take(n)), x),
{
    let dn = distinct_names(keys.take(n));
    let d = distinct_names(keys);
    lemma_first_index(dn, x);
    lemma_distinct_prefix(keys, n);
    let p = first_index(dn, x);
    assert(d[p] == dn[p]);
    assert forall|j: int| 0 <= j < p implies d[j] != x by {
        assert(d[j] == dn[j]);
    }
    lemma_first_index_is(d, x, p);
}

proof fn lemma_entity_index_new(keys: Seq<VariantKey>, n: int)
    requires
        0 <= n < keys.len(),
        !distinct_names(keys.take(n)).contains(keys[n].0),
    ensures
        entity_index(keys, keys[n].0) == distinct_names(keys.take(n)).len(),
{
    let x = keys[n].0;
    let dn = distinct_names(keys.take(n));
    let d1 = distinct_names(keys.take(n + 1));
    let d = distinct_names(keys);
    lemma_distinct_step(keys, n);
    lemma_distinct_prefix(keys, n + 1);
    assert(d1[dn.len() as int] == x);
    assert(d[dn.len() as int] == d1[dn.len() as int]);
    assert forall|j: int| 0 <= j < dn.len() implies d[j] != x by {
        assert(d[j] == d1[j]);
        assert(d1[j] == dn[j]);
    }
    lemma_first_index_is(d, x, dn.len() as int);
}

proof fn lemma_variant_count_step(keys: Seq<VariantKey>, n: int, y: Seq<char>)
    requires
        0 <= n < keys.len(),
    ensures
        variant_count(keys.take(n + 1), y) == variant_count(keys.take(n), y) + if keys[n].0 == y && keys[n].1 is Some {
            1nat
        } else {
            0nat
        },
        keys.take(n + 1).contains((y, None::<Seq<char>>)) <==> keys.take(n).contains((y, None::<Seq<char>>))
            || keys[n] == (y, None::<Seq<char>>),
{
    let pk = keys.take(n);
    let pk1 = keys.take(n + 1);
    assert(pk1.drop_last() =~= pk);
    assert(pk1.last() == keys[n]);
    if pk1.contains((y, None::<Seq<char>>)) {
        let j = choose|j: int| 0 <= j < pk1.len() && pk1[j] == (y, None::<Seq<char>>);
        if j < n {
            assert(pk[j] == pk1[j]);
        }
    }
    if pk.contains((y, None::<Seq<char>>)) {
        let j = choose|j: int| 0 <= j < pk.len() && pk[j] == (y, None::<Seq<char>>);
        assert(pk1[j] == pk[j]);
    }
    if keys[n] == (y, None::<Seq<char>>) {
        assert(pk1[n] == keys[n]);
    }
}

/// One more section keeps the slots fitting: it goes to the group of its name's index, at
/// the slot of its variant index.
proof fn lemma_slot_step<V>(keys: Seq<VariantKey>, n: int, acc: Seq<Seq<Option<V>>>, v: V, p: spec_fn(V) -> bool)
    requires
        0 <= n < keys.len() <= usize::MAX,
        slots_fit(keys, n, acc, p),
        p(v),
    ensures
        entity_index(keys, keys[n].0) >= 0,
        slots_fit(keys, n + 1, placed(acc, entity_index(keys, keys[n].0), variant_index_at(keys, n) as int, v), p),
{
    let x = keys[n].0;
    let pk = keys.take(n);
    let pk1 = keys.take(n + 1);
    let d = distinct_names(pk);
    let d1 = distinct_names(pk1);
    lemma_distinct_step(keys, n);
    lemma_distinct_names_contains(keys);
    lemma_distinct_prefix(keys, n);
    assert forall|y: Seq<char>| #![trigger variant_count(pk1, y)]
        variant_count(pk1, y) == variant_count(pk, y) + if keys[n].0 == y && keys[n].1 is Some { 1nat } else { 0nat }
        && (pk1.contains((y, None::<Seq<char>>)) <==> pk.contains((y, None::<Seq<char>>)) || keys[n] == (y, None::<Seq<char>>)) by {
        lemma_variant_count_step(keys, n, y);
    }
    let vid = variant_index_at(keys, n) as int;
    assert(keys[n].1 is Some ==> vid == variant_count(pk1, x));
    if !d.contains(x) {
        lemma_entity_index_new(keys, n);
        lemma_variant_count_absent(pk, x);
        lemma_distinct_names_contains(pk);
        if pk.contains((x, None::<Seq<char>>)) {
            let j = choose|j: int| 0 <= j < pk.len() && pk[j] == (x, None::<Seq<char>>);
            assert(d.contains(pk[j].0));
        }
        let r = placed(acc, entity_index(keys, x), vid, v);
        let grp: Seq<Option<V>> = if keys[n].1 is None { seq![Some(v)] } else { seq![None, Some(v)] };
        let id = entity_index(keys, x);
        let a = acc + Seq::new((id + 1 - acc.len()) as nat, |i: int| Seq::<Option<V>>::empty());
        assert(a =~= acc.push(Seq::<Option<V>>::empty()));
        assert(a[id] == Seq::<Option<V>>::empty());
        let h = a[id] + Seq::new((vid + 1 - a[id].len()) as nat, |i: int| None::<V>);
        if keys[n].1 is None {
            assert(vid == 0);
        } else {
            assert(vid == 1);
        }
        assert(h.update(vid, Some(v)) =~= grp);
        assert(r == a.update(id, h.update(vid, Some(v))));
        assert(r =~= acc.push(grp));
        assert(d1 =~= d.push(x));
        assert forall|g: int| 0 <= g < acc.len() implies #[trigger] d1[g] == d[g] && d[g] != x by {
            assert(d.contains(d[g]));
        }
        assert forall|g: int| 0 <= g < r.len() implies (#[trigger] r[g]).len() == 1 + variant_count(pk1, d1[g]) by {
            assert(variant_count(pk1, d1[g]) == variant_count(pk, d1[g]) + if keys[n].0 == d1[g] && keys[n].1 is Some { 1nat } else { 0nat });
        }
        assert forall|g: int| 0 <= g < r.len() implies ((#[trigger] r[g])[0] is Some <==> pk1.contains((d1[g], None::<Seq<char>>))) by {
            assert(pk1.contains((d1[g], None::<Seq<char>>)) <==> pk.contains((d1[g], None::<Seq<char>>)) || keys[n] == (d1[g], None::<Seq<char>>));
        }
        assert forall|g: int, w: int| 0 <= g < r.len() && 0 < w < r[g].len() implies (#[trigger] r[g][w]) is Some by {
            if g < acc.len() {
                assert(r[g] == acc[g]);
            }
        }
        assert forall|g: int, w: int| 0 <= g < r.len() && 0 <= w < r[g].len() && (#[trigger] r[g][w]) is Some implies p(r[g][w]->Some_0) by {
            if g < acc.len() {
                assert(r[g] == acc[g]);
            }
        }
    } else {
        lemma_first_index(d, x);
        let g0 = first_index(d, x);
        lemma_entity_index_known(keys, n, x);
        assert(d1 == d);
        let c = variant_count(pk, x);
        assert(acc[g0].len() == 1 + c);
        let r = placed(acc, g0, vid, v);
        let grp: Seq<Option<V>> = if keys[n].1 is None { acc[g0].update(0, Some(v)) } else { acc[g0].push(Some(v)) };
        if keys[n].1 is None {
            assert(vid == 0);
            assert(r == acc.update(g0, acc[g0].update(0, Some(v))));
        } else {
            assert(vid == c + 1);
            let h = acc[g0] + Seq::new((vid + 1 - acc[g0].len()) as nat, |i: int| None::<V>);
            assert(h.update(vid, Some(v)) =~= acc[g0].push(Some(v)));
            assert(r == acc.update(g0, h.update(vid, Some(v))));
        }
        assert(r =~= acc.update(g0, grp));
        assert forall|g: int| 0 <= g < acc.len() && g != g0 implies #[trigger] d[g] != x by {
            lemma_distinct_names_unique(pk, g, g0);
        }
        assert forall|g: int| 0 <= g < r.len() implies (#[trigger] r[g]).len() == 1 + variant_count(pk1, d1[g]) by {
            assert(variant_count(pk1, d1[g]) == variant_count(pk, d1[g]) + if keys[n].0 == d1[g] && keys[n].1 is Some { 1nat } else { 0nat });
        }
        assert forall|g: int| 0 <= g < r.len() implies ((#[trigger] r[g])[0] is Some <==> pk1.contains((d1[g], None::<Seq<char>>))) by {
            assert(pk1.contains((d1[g], None::<Seq<char>>)) <==> pk.contains((d1[g], None::<Seq<char>>)) || keys[n] == (d1[g], None::<Seq<char>>));
            if g == g0 && keys[n].1 is Some {
                assert(r[g][0] == acc[g][0]);
            }
        }
        assert forall|g: int, w: int| 0 <= g < r.len() && 0 < w < r[g].len() implies (#[trigger] r[g][w]) is Some by {
            if g != g0 {
                assert(r[g] == acc[g]);
            } else if keys[n].1 is None || w < acc[g0].len() {
                assert(r[g][w] == if keys[n].1 is None && w == 0 { Some(v) } else { acc[g0][w] });
            }
        }
        assert forall|g: int, w: int| 0 <= g < r.len() && 0 <= w < r[g].len() && (#[trigger] r[g][w]) is Some implies p(r[g][w]->Some_0) by {
            if g != g0 {
                assert(r[g] == acc[g]);
            } else if keys[n].1 is None {
                if w != 0 {
                    assert(r[g][w] == acc[g0][w]);
                }
            } else if w < acc[g0].len() {
                assert(r[g][w] == acc[g0][w]);
            }
        }
    }
}

/// Each value a successful fold gives meets `p` when the value of each element does.
proof fn lemma_fold_meets<A, T>(s: Seq<A>, f: spec_fn(A) -> Result<T, ErrorView>, p: spec_fn(T) -> bool)
    requires
        forall|i: int| 0 <= i < s.len() && (#[trigger] f(s[i])) is Ok ==> p(f(s[i])->Ok_0),
    ensures
        fold_results(s, f) is Ok ==> {
            &&& fold_results(s, f)->Ok_0.len() == s.len()
            &&& forall|k: int| 0 <= k < s.len() ==> p(#[trigger] fold_results(s, f)->Ok_0[k])
        },
{
    if fold_results(s, f) is Ok {
        lemma_fold_results_ok(s, f);
        assert forall|k: int| 0 <= k < s.len() implies p(#[trigger] fold_results(s, f)->Ok_0[k]) by {
            assert(f(s[k]) == Ok::<T, ErrorView>(fold_results(s, f)->Ok_0[k]));
        }
    }
}

pub open spec fn room_keys(raws: Seq<RoomText>) -> Seq<VariantKey> {
    raws.map_values(|r: RoomText| (r.name, r.variant))
}

pub open spec fn dialogue_keys(raws: Seq<DialogueText>) -> Seq<VariantKey> {
    raws.map_values(|d: DialogueText| (d.name, d.variant))
}

/// The slots filled from the first `n` room sections fit their names, and each of those
/// sections names a room with a default section.
proof fn lemma_slotted_rooms_fit(l: Lookups, raws: Seq<RoomText>, n: int, p: spec_fn(RoomVariantModel) -> bool)
    requires
        l.rooms == room_keys(raws),
        0 <= n <= raws.len() <= usize::MAX,
        slotted_rooms(l, raws, n) is Ok,
        forall|j: int| 0 <= j < raws.len() && (#[trigger] room_variant_ref_of(l, raws[j])) is Ok ==> p(room_variant_ref_of(l, raws[j])->Ok_0),
    ensures
        slots_fit(l.rooms, n, slotted_rooms(l, raws, n)->Ok_0, p),
        forall|j: int| 0 <= j < n ==> has_default(l.rooms, #[trigger] raws[j].name),
    decreases n,
{
    if n == 0 {
        assert(l.rooms.take(0) =~= Seq::<VariantKey>::empty());
    } else {
        lemma_slotted_rooms_fit(l, raws, n - 1, p);
        let acc = slotted_rooms(l, raws, n - 1)->Ok_0;
        let v = room_variant_ref_of(l, raws[n - 1])->Ok_0;
        lemma_room_ref(l, raws[n - 1].name);
        assert(l.rooms[n - 1] == (raws[n - 1].name, raws[n - 1].variant));
        lemma_slot_step(l.rooms, n - 1, acc, v, p);
    }
}

/// When the rooms resolve, each room has one slot per variant index (the default and
/// each named variant), every slot filled with a value meeting `p`.
proof fn lemma_rooms_grouped(l: Lookups, raws: Seq<RoomText>, p: spec_fn(RoomVariantModel) -> bool)
    requires
        l.rooms == room_keys(raws),
        raws.len() <= usize::MAX,
        slotted_rooms(l, raws, raws.len() as int) is Ok,
        forall|j: int| 0 <= j < raws.len() && (#[trigger] room_variant_ref_of(l, raws[j])) is Ok ==> p(room_variant_ref_of(l, raws[j])->Ok_0),
    ensures
        ({
            let acc = slotted_rooms(l, raws, raws.len() as int)->Ok_0;
            let d = distinct_names(l.rooms);
            &&& acc.len() == d.len()
            &&& forall|g: int| 0 <= g < acc.len() ==> (#[trigger] acc[g]).len() == 1 + variant_count(l.rooms, d[g])
            &&& forall|g: int, v: int| 0 <= g < acc.len() && 0 <= v < acc[g].len() ==> (#[trigger] acc[g][v]) is Some
            &&& forall|g: int, v: int| 0 <= g < acc.len() && 0 <= v < acc[g].len() ==> p(#[trigger] filled(acc)[g][v])
        }),
{
    let n = raws.len() as int;
    lemma_slotted_rooms_fit(l, raws, n, p);
    assert(l.rooms.take(n) =~= l.rooms);
    let acc = slotted_rooms(l, raws, n)->Ok_0;
    let d = distinct_names(l.rooms);
    lemma_distinct_names_contains(l.rooms);
    assert forall|g: int| 0 <= g < acc.len() implies (#[trigger] acc[g])[0] is Some by {
        assert(d.contains(d[g]));
        let j = choose|j: int| 0 <= j < l.rooms.len() && #[trigger] l.rooms[j].0 == d[g];
        assert(l.rooms[j].0 == raws[j].name);
        assert(has_default(l.rooms, raws[j].name));
    }
    assert forall|g: int, v: int| 0 <= g < acc.len() && 0 <= v < acc[g].len() implies (#[trigger] acc[g][v]) is Some by {
        if v == 0 {
            assert(acc[g][0] is Some);
        }
    }
    assert forall|g: int, v: int| 0 <= g < acc.len() && 0 <= v < acc[g].len() implies p(#[trigger] filled(acc)[g][v]) by {
        assert(acc[g][v] is Some);
        assert(filled(acc)[g][v] == acc[g][v]->Some_0);
    }
}

/// The slots filled from the first `n` dialogue sections fit their names, and each of those
/// sections names a dialogue with a default section.
proof fn lemma_slotted_dialogues_fit(l: Lookups, raws: Seq<DialogueText>, n: int, p: spec_fn(DialogueVariantModel) -> bool)
    requires
        l.dialogues == dialogue_keys(raws),
        0 <= n <= raws.len() <= usize::MAX,
        slotted_dialogues(l, raws, n) is Ok,
        forall|j: int| 0 <= j < raws.len() && (#[trigger] dialogue_variant_ref_of(l, raws[j])) is Ok ==> p(dialogue_variant_ref_of(l, raws[j])->Ok_0),
    ensures
        slots_fit(l.dialogues, n, slotted_dialogues(l, raws, n)->Ok_0, p),
        forall|j: int| 0 <= j < n ==> has_default(l.dialogues, #[trigger] raws[j].name),
    decreases n,
{
    if n == 0 {
        assert(l.dialogues.take(0) =~= Seq::<VariantKey>::empty());
    } else {
        lemma_slotted_dialogues_fit(l, raws, n - 1, p);
        let acc = slotted_dialogues(l, raws, n - 1)->Ok_0;
        let v = dialogue_variant_ref_of(l, raws[n - 1])->Ok_0;
        lemma_dialogue_ref(l, raws[n - 1].name);
        assert(l.dialogues[n - 1] == (raws[n - 1].name, raws[n - 1].variant));
        lemma_slot_step(l.dialogues, n - 1, acc, v, p);
    }
}

/// When the dialogues resolve, each dialogue has one slot per variant index (the default and
/// each named variant), every slot filled with a value meeting `p`.
proof fn lemma_dialogues_grouped(l: Lookups, raws: Seq<DialogueText>, p: spec_fn(DialogueVariantModel) -> bool)
    requires
        l.dialogues == dialogue_keys(raws),
        raws.len() <= usize::MAX,
        slotted_dialogues(l, raws, raws.len() as int) is Ok,
        forall|j: int| 0 <= j < raws.len() && (#[trigger] dialogue_variant_ref_of(l, raws[j])) is Ok ==> p(dialogue_variant_ref_of(l, raws[j])->Ok_0),
    ensures
        ({
            let acc = slotted_dialogues(l, raws, raws.len() as int)->Ok_0;
            let d = distinct_names(l.dialogues);
            &&& acc.len() == d.len()
            &&& forall|g: int| 0 <= g < acc.len() ==> (#[trigger] acc[g]).len() == 1 + variant_count(l.dialogues, d[g])
            &&& forall|g: int, v: int| 0 <= g < acc.len() && 0 <= v < acc[g].len() ==> (#[trigger] acc[g][v]) is Some
            &&& forall|g: int, v: int| 0 <= g < acc.len() && 0 <= v < acc[g].len() ==> p(#[trigger] filled(acc)[g][v])
        }),
{
    let n = raws.len() as int;
    lemma_slotted_dialogues_fit(l, raws, n, p);
    assert(l.dialogues.take(n) =~= l.dialogues);
    let acc = slotted_dialogues(l, raws, n)->Ok_0;
    let d = distinct_names(l.dialogues);
    lemma_distinct_names_contains(l.dialogues);
    assert forall|g: int| 0 <= g < acc.len() implies (#[trigger] acc[g])[0] is Some by {
        assert(d.contains(d[g]));
        let j = choose|j: int| 0 <= j < l.dialogues.len() && #[trigger] l.dialogues[j].0 == d[g];
        assert(l.dialogues[j].0 == raws[j].name);
        assert(has_default(l.dialogues, raws[j].name));
    }
    assert forall|g: int, v: int| 0 <= g < acc.len() && 0 <= v < acc[g].len() implies (#[trigger] acc[g][v]) is Some by {
        if v == 0 {
            assert(acc[g][0] is Some);
        }
    }
    assert forall|g: int, v: int| 0 <= g < acc.len() && 0 <= v < acc[g].len() implies p(#[trigger] filled(acc)[g][v]) by {
        assert(acc[g][v] is Some);
        assert(filled(acc)[g][v] == acc[g][v]->Some_0);
    }
}

/// When the room sections resolve, every slot of every room's group is filled.
pub proof fn lemma_rooms_all_filled(l: Lookups, raws: Seq<RoomText>)
    requires
        l.rooms == room_keys(raws),
        raws.len() <= usize::MAX,
        slotted_rooms(l, raws, raws.len() as int) is Ok,
    ensures
        ({
            let acc = slotted_rooms(l, raws, raws.len() as int)->Ok_0;
            forall|g: int, v: int| 0 <= g < acc.len() && 0 <= v < acc[g].len() ==> (#[trigger] acc[g][v]) is Some
        }),
{
    let any = |x: RoomVariantModel| true;
    lemma_rooms_grouped(l, raws, any);
}

/// When the dialogue sections resolve, every slot of every dialogue's group is filled.
pub proof fn lemma_dialogues_all_filled(l: Lookups, raws: Seq<DialogueText>)
    requires
        l.dialogues == dialogue_keys(raws),
        raws.len() <= usize::MAX,
        slotted_dialogues(l, raws, raws.len() as int) is Ok,
    ensures
        ({
            let acc = slotted_dialogues(l, raws, raws.len() as int)->Ok_0;
            forall|g: int, v: int| 0 <= g < acc.len() && 0 <= v < acc[g].len() ==> (#[trigger] acc[g][v]) is Some
        }),
{
    let any = |x: DialogueVariantModel| true;
    lemma_dialogues_grouped(l, raws, any);
}

/// Section `j` and a later section `k` of the same name take the same slot.
pub open spec fn same_slot(keys: Seq<VariantKey>, j: int, k: int) -> bool {
    keys[k].0 == keys[j].0 && variant_index_at(keys, k) == variant_index_at(keys, j)
}

proof fn lemma_placed_get<V>(acc: Seq<Seq<Option<V>>>, id: int, vid: int, v: V, g: int, w: int)
    requires
        0 <= id,
        0 <= vid,
    ensures
        placed(acc, id, vid, v)[id][vid] == Some(v),
        placed(acc, id, vid, v).len() >= acc.len(),
        0 <= g < acc.len() ==> placed(acc, id, vid, v)[g].len() >= acc[g].len(),
        0 <= g < acc.len() && 0 <= w < acc[g].len() && (g != id || w != vid) ==> placed(acc, id, vid, v)[g][w]
            == acc[g][w],
{
    let a = if id < acc.len() {
        acc
    } else {
        acc + Seq::new((id + 1 - acc.len()) as nat, |i: int| Seq::<Option<V>>::empty())
    };
    let gr = a[id];
    let h = if vid < gr.len() { gr } else { gr + Seq::new((vid + 1 - gr.len()) as nat, |i: int| None::<V>) };
    if 0 <= g < acc.len() {
        assert(a[g] == acc[g]);
        if g == id {
            assert(h.update(vid, Some(v)).len() >= acc[g].len());
            if 0 <= w < acc[g].len() && w != vid {
                assert(h[w] == acc[g][w]);
            }
        }
    }
}

/// The slots of the first `n` room sections: each section's room variant is in the group
/// of its room's index at its variant index, unless a later section took that slot.
proof fn lemma_rooms_land(l: Lookups, raws: Seq<RoomText>, n: int)
    requires
        l.rooms == room_keys(raws),
        0 <= n <= raws.len() <= usize::MAX,
        slotted_rooms(l, raws, n) is Ok,
    ensures
        forall|j: int|
            #![trigger room_variant_ref_of(l, raws[j])]
            0 <= j < n && (forall|k: int| j < k < n ==> !#[trigger] same_slot(l.rooms, j, k)) ==> {
                let acc = slotted_rooms(l, raws, n)->Ok_0;
                let e = entity_index(l.rooms, raws[j].name);
                let vi = variant_index_at(l.rooms, j) as int;
                &&& 0 <= e < acc.len()
                &&& 0 <= vi < acc[e].len()
                &&& acc[e][vi] == Some(room_variant_ref_of(l, raws[j])->Ok_0)
                &&& room_variant_ref_of(l, raws[j]) is Ok
            },
    decreases n,
{
    if n > 0 {
        lemma_rooms_land(l, raws, n - 1);
        let acc = slotted_rooms(l, raws, n - 1)->Ok_0;
        let id = entity_index(l.rooms, raws[n - 1].name);
        let vid = variant_index_at(l.rooms, n - 1) as int;
        let v = room_variant_ref_of(l, raws[n - 1])->Ok_0;
        lemma_room_ref(l, raws[n - 1].name);
        assert(l.rooms[n - 1] == (raws[n - 1].name, raws[n - 1].variant));
        let r = slotted_rooms(l, raws, n)->Ok_0;
        assert(r == placed(acc, id, vid, v));
        lemma_first_index(distinct_names(l.rooms), raws[n - 1].name);
        assert forall|j: int|
            #![trigger room_variant_ref_of(l, raws[j])]
            0 <= j < n && (forall|k: int| j < k < n ==> !#[trigger] same_slot(l.rooms, j, k)) implies {
                let e = entity_index(l.rooms, raws[j].name);
                let vi = variant_index_at(l.rooms, j) as int;
                &&& 0 <= e < r.len()
                &&& 0 <= vi < r[e].len()
                &&& r[e][vi] == Some(room_variant_ref_of(l, raws[j])->Ok_0)
                &&& room_variant_ref_of(l, raws[j]) is Ok
            } by {
            let e = entity_index(l.rooms, raws[j].name);
            let vi = variant_index_at(l.rooms, j) as int;
            lemma_placed_get(acc, id, vid, v, e, vi);
            if j < n - 1 {
                assert(!same_slot(l.rooms, j, n - 1));
                assert(l.rooms[j] == (raws[j].name, raws[j].variant));
                if e == id && raws[j].name != raws[n - 1].name {
                    lemma_first_index(distinct_names(l.rooms), raws[j].name);
                    lemma_distinct_names_contains(l.rooms);
                    assert(distinct_names(l.rooms).contains(l.rooms[j].0));
                }
            }
        }
    }
}

/// Each room section that resolves ends up as its room's variant at its variant index
/// (`map_ids`), wherever its section stands, unless a later section of the same room has
/// the same variant index.
pub proof fn law_room_variants_land_at_their_indices(l: Lookups, raws: Seq<RoomText>, j: int)
    requires
        l.rooms == room_keys(raws),
        raws.len() <= usize::MAX,
        group_rooms(l, raws) is Ok,
        0 <= j < raws.len(),
        forall|k: int| j < k < raws.len() ==> !#[trigger] same_slot(l.rooms, j, k),
    ensures
        ({
            let gs = group_rooms(l, raws)->Ok_0;
            let e = entity_index(l.rooms, raws[j].name);
            let vi = variant_index_at(l.rooms, j) as int;
            &&& 0 <= e < gs.len()
            &&& 0 <= vi < gs[e].len()
            &&& gs[e][vi] == room_variant_ref_of(l, raws[j])->Ok_0
        }),
{
    lemma_rooms_land(l, raws, raws.len() as int);
    let acc = slotted_rooms(l, raws, raws.len() as int)->Ok_0;
    let e = entity_index(l.rooms, raws[j].name);
    let vi = variant_index_at(l.rooms, j) as int;
    assert(room_variant_ref_of(l, raws[j]) is Ok);
    assert(filled(acc)[e][vi] == acc[e][vi]->Some_0);
}

/// The slots of the first `n` dialogue sections: each section's room variant is in the group
/// of its dialogue's index at its variant index, unless a later section took that slot.
proof fn lemma_dialogues_land(l: Lookups, raws: Seq<DialogueText>, n: int)
    requires
        l.dialogues == dialogue_keys(raws),
        0 <= n <= raws.len() <= usize::MAX,
        slotted_dialogues(l, raws, n) is Ok,
    ensures
        forall|j: int|
            #![trigger dialogue_variant_ref_of(l, raws[j])]
            0 <= j < n && (forall|k: int| j < k < n ==> !#[trigger] same_slot(l.dialogues, j, k)) ==> {
                let acc = slotted_dialogues(l, raws, n)->Ok_0;
                let e = entity_index(l.dialogues, raws[j].name);
                let vi = variant_index_at(l.dialogues, j) as int;
                &&& 0 <= e < acc.len()
                &&& 0 <= vi < acc[e].len()
                &&& acc[e][vi] == Some(dialogue_variant_ref_of(l, raws[j])->Ok_0)
                &&& dialogue_variant_ref_of(l, raws[j]) is Ok
            },
    decreases n,
{
    if n > 0 {
        lemma_dialogues_land(l, raws, n - 1);
        let acc = slotted_dialogues(l, raws, n - 1)->Ok_0;
        let id = entity_index(l.dialogues, raws[n - 1].name);
        let vid = variant_index_at(l.dialogues, n - 1) as int;
        let v = dialogue_variant_ref_of(l, raws[n - 1])->Ok_0;
        lemma_dialogue_ref(l, raws[n - 1].name);
        assert(l.dialogues[n - 1] == (raws[n - 1].name, raws[n - 1].variant));
        let r = slotted_dialogues(l, raws, n)->Ok_0;
        assert(r == placed(acc, id, vid, v));
        lemma_first_index(distinct_names(l.dialogues), raws[n - 1].name);
        assert forall|j: int|
            #![trigger dialogue_variant_ref_of(l, raws[j])]
            0 <= j < n && (forall|k: int| j < k < n ==> !#[trigger] same_slot(l.dialogues, j, k)) implies {
                let e = entity_index(l.dialogues, raws[j].name);
                let vi = variant_index_at(l.dialogues, j) as int;
                &&& 0 <= e < r.len()
                &&& 0 <= vi < r[e].len()
                &&& r[e][vi] == Some(dialogue_variant_ref_of(l, raws[j])->Ok_0)
                &&& dialogue_variant_ref_of(l, raws[j]) is Ok
            } by {
            let e = entity_index(l.dialogues, raws[j].name);
            let vi = variant_index_at(l.dialogues, j) as int;
            lemma_placed_get(acc, id, vid, v, e, vi);
            if j < n - 1 {
                assert(!same_slot(l.dialogues, j, n - 1));
                assert(l.dialogues[j] == (raws[j].name, raws[j].variant));
                if e == id && raws[j].name != raws[n - 1].name {
                    lemma_first_index(distinct_names(l.dialogues), raws[j].name);
                    lemma_distinct_names_contains(l.dialogues);
                    assert(distinct_names(l.dialogues).contains(l.dialogues[j].0));
                }
            }
        }
    }
}

/// Each dialogue section that resolves ends up as its dialogue's variant at its variant index
/// (`map_ids`), wherever its section stands, unless a later section of the same dialogue has
/// the same variant index.
pub proof fn law_dialogue_variants_land_at_their_indices(l: Lookups, raws: Seq<DialogueText>, j: int)
    requires
        l.dialogues == dialogue_keys(raws),
        raws.len() <= usize::MAX,
        group_dialogues(l, raws) is Ok,
        0 <= j < raws.len(),
        forall|k: int| j < k < raws.len() ==> !#[trigger] same_slot(l.dialogues, j, k),
    ensures
        ({
            let gs = group_dialogues(l, raws)->Ok_0;
            let e = entity_index(l.dialogues, raws[j].name);
            let vi = variant_index_at(l.dialogues, j) as int;
            &&& 0 <= e < gs.len()
            &&& 0 <= vi < gs[e].len()
            &&& gs[e][vi] == dialogue_variant_ref_of(l, raws[j])->Ok_0
        }),
{
    lemma_dialogues_land(l, raws, raws.len() as int);
    let acc = slotted_dialogues(l, raws, raws.len() as int)->Ok_0;
    let e = entity_index(l.dialogues, raws[j].name);
    let vi = variant_index_at(l.dialogues, j) as int;
    assert(dialogue_variant_ref_of(l, raws[j]) is Ok);
    assert(filled(acc)[e][vi] == acc[e][vi]->Some_0);
}

/// The item an action's text says it requires, if its kind may require one.
pub open spec fn text_required(a: ActionText) -> Option<Seq<char>> {
    match a {
        ActionText::ChangeRoom { required, .. } => required,
        ActionText::GiveItem { required, .. } => required,
        ActionText::Teleport { required, .. } => required,
        ActionText::Sequence { required, .. } => required,
        _ => None,
    }
}

/// The item a resolved action requires, if any.
pub open spec fn model_required(a: ActionModel) -> Option<ItemId> {
    match a {
        ActionModel::ChangeRoom { required, .. } => required,
        ActionModel::GiveItem { required, .. } => required,
        ActionModel::Teleport { required, .. } => required,
        ActionModel::Sequence { required, .. } => required,
        _ => None,
    }
}

/// Resolving an action keeps its required item: an action whose text names a required
/// item requires, once resolved, an item of that name, and one whose text names none
/// requires none.
pub proof fn law_resolving_keeps_the_required_item(l: Lookups, a: ActionText)
    requires
        l.items.len() <= usize::MAX,
    ensures
        action_ref_of(l, a) is Ok ==> match text_required(a) {
            None => model_required(action_ref_of(l, a)->Ok_0) is None,
            Some(n) => {
                &&& model_required(action_ref_of(l, a)->Ok_0) is Some
                &&& model_required(action_ref_of(l, a)->Ok_0)->Some_0.0 < l.items.len()
                &&& l.items[model_required(action_ref_of(l, a)->Ok_0)->Some_0.0 as int] == n
            },
        },
{
    if let Some(n) = text_required(a) {
        lemma_last_index(l.items, n);
    }
}

/// In a parsed world, each action requires exactly the item its section names: the
/// item at the index it holds has that name.
pub proof fn law_parsed_actions_keep_their_required_items(d: IniModel, j: int)
    requires
        parse_spec(d) is Ok,
        d.len() <= usize::MAX,
        0 <= j < actions_of(d)->Ok_0.len(),
    ensures
        ({
            let w = parse_spec(d)->Ok_0;
            match text_required(actions_of(d)->Ok_0[j]) {
                None => model_required(w.actions[j]) is None,
                Some(n) => {
                    &&& model_required(w.actions[j]) is Some
                    &&& model_required(w.actions[j])->Some_0.0 < w.items.len()
                    &&& w.items[model_required(w.actions[j])->Some_0.0 as int].0 == n
                },
            }
        }),
{
    let characters = characters_of(d)->Ok_0;
    let items = items_of(d)->Ok_0;
    let actions = actions_of(d)->Ok_0;
    let responses = responses_of(d)->Ok_0;
    let rooms = rooms_of(d)->Ok_0;
    let dialogues = dialogues_of(d)->Ok_0;
    let l = lookups_from(characters, items, actions, responses, rooms, dialogues);
    let fa = |a: ActionText| action_ref_of(l, a);
    lemma_fold_results_ok(actions, fa);
    lemma_fold_steps_len(d, d.len() as int, items_step());
    law_resolving_keeps_the_required_item(l, actions[j]);
    let w = parse_spec(d)->Ok_0;
    assert(w.actions[j] == action_ref_of(l, actions[j])->Ok_0);
    assert(w.items == items);
    assert(l.items.len() == items.len());
    if let Some(n) = text_required(actions[j]) {
        let i = model_required(w.actions[j])->Some_0.0 as int;
        assert(l.items[i] == items[i].0);
    }
}

/// The index of the room a name refers to: the entity index of a name with a default
/// variant.
proof fn lemma_room_ref(l: Lookups, n: Seq<char>)
    requires
        l.rooms.len() <= usize::MAX,
    ensures
        room_ref(l, n) is Ok ==> {
            &&& room_ref(l, n)->Ok_0.0 == entity_index(l.rooms, n)
            &&& 0 <= entity_index(l.rooms, n) < distinct_names(l.rooms).len()
            &&& distinct_names(l.rooms)[entity_index(l.rooms, n)] == n
            &&& has_default(l.rooms, n)
        },
{
    lemma_first_index(distinct_names(l.rooms), n);
    lemma_distinct_names_contains(l.rooms);
}

/// The index of the dialogue a name refers to.
proof fn lemma_dialogue_ref(l: Lookups, n: Seq<char>)
    requires
        l.dialogues.len() <= usize::MAX,
    ensures
        dialogue_ref(l, n) is Ok ==> {
            &&& dialogue_ref(l, n)->Ok_0.0 == entity_index(l.dialogues, n)
            &&& 0 <= entity_index(l.dialogues, n) < distinct_names(l.dialogues).len()
            &&& distinct_names(l.dialogues)[entity_index(l.dialogues, n)] == n
            &&& has_default(l.dialogues, n)
        },
{
    lemma_first_index(distinct_names(l.dialogues), n);
    lemma_distinct_names_contains(l.dialogues);
}

proof fn lemma_item_refs(l: Lookups, s: Seq<Seq<char>>)
    ensures
        item_refs(l, s) is Ok ==> forall|k: int|
            0 <= k < item_refs(l, s)->Ok_0.len() ==> (#[trigger] item_refs(l, s)->Ok_0[k]).0 < l.items.len(),
{
    let f = |n: Seq<char>| item_ref(l, n);
    let p = |i: ItemId| i.0 < l.items.len();
    assert forall|i: int| 0 <= i < s.len() && (#[trigger] f(s[i])) is Ok implies p(f(s[i])->Ok_0) by {
        lemma_last_index(l.items, s[i]);
    }
    lemma_fold_meets(s, f, p);
}

proof fn lemma_action_refs(l: Lookups, s: Seq<Seq<char>>)
    ensures
        action_refs(l, s) is Ok ==> forall|k: int|
            0 <= k < action_refs(l, s)->Ok_0.len() ==> (#[trigger] action_refs(l, s)->Ok_0[k]).0 < l.actions.len(),
{
    let f = |n: Seq<char>| action_ref(l, n);
    let p = |i: ActionId| i.0 < l.actions.len();
    assert forall|i: int| 0 <= i < s.len() && (#[trigger] f(s[i])) is Ok implies p(f(s[i])->Ok_0) by {
        lemma_last_index(l.actions, s[i]);
    }
    lemma_fold_meets(s, f, p);
}

proof fn lemma_response_refs(l: Lookups, s: Seq<Seq<char>>)
    ensures
        response_refs(l, s) is Ok ==> forall|k: int|
            0 <= k < response_refs(l, s)->Ok_0.len() ==> (#[trigger] response_refs(l, s)->Ok_0[k]).0
                < l.responses.len(),
{
    let f = |n: Seq<char>| response_ref(l, n);
    let p = |i: ResponseId| i.0 < l.responses.len();
    assert forall|i: int| 0 <= i < s.len() && (#[trigger] f(s[i])) is Ok implies p(f(s[i])->Ok_0) by {
        lemma_last_index(l.responses, s[i]);
    }
    lemma_fold_meets(s, f, p);
}

proof fn lemma_character_refs(l: Lookups, s: Seq<Seq<char>>)
    ensures
        character_refs(l, s) is Ok ==> forall|k: int|
            0 <= k < character_refs(l, s)->Ok_0.len() ==> (#[trigger] character_refs(l, s)->Ok_0[k]).0
                < l.characters.len(),
{
    let f = |n: Seq<char>| character_ref(l, n);
    let p = |i: CharacterId| i.0 < l.characters.len();
    assert forall|i: int| 0 <= i < s.len() && (#[trigger] f(s[i])) is Ok implies p(f(s[i])->Ok_0) by {
        lemma_last_index(l.characters, s[i]);
    }
    lemma_fold_meets(s, f, p);
}

/// A requirement whose item exists, or whose room exists.
pub open spec fn requirement_fits(l: Lookups, q: Requirement) -> bool {
    match q {
        Requirement::HasItem(i) => i.0 < l.items.len(),
        Requirement::DoesNotHave(i) => i.0 < l.items.len(),
        Requirement::RoomVariant(r, v) => {
            &&& r.0 < distinct_names(l.rooms).len()
            &&& v matches Some(x) ==> x.0 <= variant_count(l.rooms, distinct_names(l.rooms)[r.0 as int])
        },
    }
}

proof fn lemma_requirement_refs(l: Lookups, s: Seq<RequirementText>)
    requires
        l.rooms.len() <= usize::MAX,
    ensures
        requirement_refs(l, s) is Ok ==> forall|k: int|
            0 <= k < requirement_refs(l, s)->Ok_0.len() ==> requirement_fits(l, #[trigger] requirement_refs(l, s)->Ok_0[k]),
{
    let f = |q: RequirementText| requirement_ref(l, q);
    let p = |q: Requirement| requirement_fits(l, q);
    assert forall|i: int| 0 <= i < s.len() && (#[trigger] f(s[i])) is Ok implies p(f(s[i])->Ok_0) by {
        match s[i] {
            RequirementText::HasItem(n) => lemma_last_index(l.items, n),
            RequirementText::DoesNotHave(n) => lemma_last_index(l.items, n),
            RequirementText::RoomVariant(n, v) => {
                lemma_room_ref(l, n);
                if let Some(t) = v {
                    if l.rooms.contains((n, Some(t))) {
                        lemma_variant_index_at_most(l.rooms, n, t);
                    }
                }
            },
        }
    }
    lemma_fold_meets(s, f, p);
}

proof fn lemma_inserted_below<K>(s: Seq<(K, usize)>, k: K, v: usize, b: int)
    requires
        forall|i: int| 0 <= i < s.len() ==> (#[trigger] s[i]).1 < b,
        v < b,
    ensures
        forall|i: int| 0 <= i < inserted(s, k, v).len() ==> (#[trigger] inserted(s, k, v)[i]).1 < b,
{
    lemma_key_position(s, k);
}

proof fn lemma_inserted_all_below<K>(pairs: Seq<(K, usize)>, b: int)
    requires
        forall|i: int| 0 <= i < pairs.len() ==> (#[trigger] pairs[i]).1 < b,
    ensures
        forall|i: int| 0 <= i < inserted_all(pairs).len() ==> (#[trigger] inserted_all(pairs)[i]).1 < b,
    decreases pairs.len(),
{
    if pairs.len() > 0 {
        let p = pairs.drop_last();
        assert forall|i: int| 0 <= i < p.len() implies (#[trigger] p[i]).1 < b by {
            assert(p[i] == pairs[i]);
        }
        lemma_inserted_all_below(p, b);
        assert(pairs.last() == pairs[pairs.len() - 1]);
        lemma_inserted_below(inserted_all(p), pairs.last().0, pairs.last().1, b);
    }
}

proof fn lemma_exits_ref(l: Lookups, exits: Seq<(Seq<char>, Seq<char>)>)
    requires
        l.rooms.len() <= usize::MAX,
    ensures
        exits_ref(l, exits) is Ok ==> forall|k: int|
            0 <= k < exits_ref(l, exits)->Ok_0.len() ==> (#[trigger] exits_ref(l, exits)->Ok_0[k]).1
                < distinct_names(l.rooms).len(),
{
    let f = |x: (Seq<char>, Seq<char>)| exit_ref(l, x);
    let b = distinct_names(l.rooms).len() as int;
    let p = |x: (Seq<char>, usize)| x.1 < b;
    assert forall|i: int| 0 <= i < exits.len() && (#[trigger] f(exits[i])) is Ok implies p(f(exits[i])->Ok_0) by {
        lemma_room_ref(l, exits[i].1);
    }
    lemma_fold_meets(exits, f, p);
    if fold_results(exits, f) is Ok {
        let pairs = fold_results(exits, f)->Ok_0;
        assert forall|i: int| 0 <= i < pairs.len() implies (#[trigger] pairs[i]).1 < b by {
            assert(p(pairs[i]));
        }
        lemma_inserted_all_below(pairs, b);
    }
}

proof fn lemma_variant_count_take(keys: Seq<VariantKey>, a: int, n: Seq<char>)
    requires
        0 <= a <= keys.len(),
    ensures
        variant_count(keys.take(a), n) <= variant_count(keys, n),
    decreases keys.len() - a,
{
    if a == keys.len() {
        assert(keys.take(a) =~= keys);
    } else {
        assert(keys.take(a + 1).drop_last() =~= keys.take(a));
        lemma_variant_count_take(keys, a + 1, n);
    }
}

proof fn lemma_variant_count_below(keys: Seq<VariantKey>, n: Seq<char>)
    ensures
        variant_count(keys, n) <= keys.len(),
    decreases keys.len(),
{
    if keys.len() > 0 {
        lemma_variant_count_below(keys.drop_last(), n);
    }
}

/// The index of a named variant is at most the number of named variants of its entity.
proof fn lemma_variant_index_at_most(keys: Seq<VariantKey>, n: Seq<char>, t: Seq<char>)
    requires
        keys.contains((n, Some(t))),
    ensures
        variant_index_at(keys, last_index(keys, (n, Some(t)))) <= variant_count(keys, n),
{
    let j = last_index(keys, (n, Some(t)));
    lemma_last_index(keys, (n, Some(t)));
    lemma_variant_count_take(keys, j + 1, n);
}

/// No sequence among the first `n` actions holds a sequence.
proof fn lemma_no_nested_sequence(actions: Seq<ActionModel>, n: int, i: int)
    requires
        0 <= i < n <= actions.len(),
        first_nested_sequence(actions, n) is None,
        actions[i] is Sequence,
    ensures
        first_sequence_child(actions, actions[i]->Sequence_actions) is None,
    decreases n,
{
    if i < n - 1 {
        lemma_no_nested_sequence(actions, n - 1, i);
    }
}

proof fn lemma_no_sequence_child(actions: Seq<ActionModel>, ids: Seq<ActionId>)
    requires
        first_sequence_child(actions, ids) is None,
    ensures
        forall|k: int| 0 <= k < ids.len() ==> !is_sequence_at(actions, #[trigger] ids[k].0),
    decreases ids.len(),
{
    if ids.len() > 0 {
        lemma_no_sequence_child(actions, ids.drop_first());
        assert forall|k: int| 0 <= k < ids.len() implies !is_sequence_at(actions, #[trigger] ids[k].0) by {
            if k > 0 {
                assert(ids[k] == ids.drop_first()[k - 1]);
            }
        }
    }
}

/// The lengths of a model agree with the names it was resolved against.
pub open spec fn model_fits_lookups(m: WorldModel, l: Lookups) -> bool {
    &&& m.items.len() == l.items.len()
    &&& m.actions.len() == l.actions.len()
    &&& m.responses.len() == l.responses.len()
    &&& m.characters.len() == l.characters.len()
    &&& m.rooms.len() == distinct_names(l.rooms).len()
    &&& m.dialogues.len() == distinct_names(l.dialogues).len()
    &&& forall|g: int|
        0 <= g < m.rooms.len() ==> (#[trigger] m.rooms[g]).len() == 1 + variant_count(l.rooms, distinct_names(l.rooms)[g])
    &&& l.rooms.len() <= usize::MAX
    &&& l.dialogues.len() <= usize::MAX
}

proof fn lemma_room_variant_fits(m: WorldModel, l: Lookups, r: RoomText)
    requires
        model_fits_lookups(m, l),
    ensures
        room_variant_ref_of(l, r) is Ok ==> model_room_variant_ok(m, room_variant_ref_of(l, r)->Ok_0),
{
    lemma_character_refs(l, r.characters);
    lemma_exits_ref(l, r.exits);
    lemma_action_refs(l, r.actions);
}

proof fn lemma_requirements_fit(m: WorldModel, l: Lookups, s: Seq<RequirementText>)
    requires
        model_fits_lookups(m, l),
    ensures
        requirement_refs(l, s) is Ok ==> model_requirements_ok(m, requirement_refs(l, s)->Ok_0),
{
    lemma_requirement_refs(l, s);
    if requirement_refs(l, s) is Ok {
        let q = requirement_refs(l, s)->Ok_0;
        assert forall|k: int| 0 <= k < q.len() implies model_requirement_ok(m, #[trigger] q[k]) by {
            assert(requirement_fits(l, q[k]));
            if let Requirement::RoomVariant(r, _) = q[k] {
                assert(m.rooms[r.0 as int].len() == 1 + variant_count(l.rooms, distinct_names(l.rooms)[r.0 as int]));
            }
        }
    }
}

proof fn lemma_dialogue_variant_fits(m: WorldModel, l: Lookups, d: DialogueText)
    requires
        model_fits_lookups(m, l),
    ensures
        dialogue_variant_ref_of(l, d) is Ok ==> model_dialogue_variant_ok(m, dialogue_variant_ref_of(l, d)->Ok_0),
{
    lemma_response_refs(l, d.responses);
    lemma_requirements_fit(m, l, d.requires);
}

proof fn lemma_response_fits(m: WorldModel, l: Lookups, r: ResponseText)
    requires
        model_fits_lookups(m, l),
    ensures
        response_ref_of(l, r) is Ok ==> model_response_ok(m, response_ref_of(l, r)->Ok_0),
{
    if let Some(n) = r.leads_to {
        lemma_dialogue_ref(l, n);
    }
    if let Some(n) = r.triggers {
        lemma_last_index(l.actions, n);
    }
    lemma_requirements_fit(m, l, r.requires);
}

proof fn lemma_opt_item_fits(m: WorldModel, l: Lookups, o: Option<Seq<char>>)
    requires
        model_fits_lookups(m, l),
    ensures
        opt_item_ref(l, o) is Ok ==> model_opt_item_ok(m, opt_item_ref(l, o)->Ok_0),
{
    if let Some(n) = o {
        lemma_last_index(l.items, n);
    }
}

/// An action resolved against the names refers only to what exists; a sequence's
/// actions exist (whether they are sequences is settled by the whole list).
proof fn lemma_action_fits(m: WorldModel, l: Lookups, a: ActionText)
    requires
        model_fits_lookups(m, l),
    ensures
        action_ref_of(l, a) is Ok ==> {
            let x = action_ref_of(l, a)->Ok_0;
            &&& x !is Sequence ==> model_action_ok(m, x)
            &&& x is Sequence ==> model_opt_item_ok(m, x->Sequence_required)
            &&& x is Sequence ==> forall|k: int|
                0 <= k < x->Sequence_actions.len() ==> (#[trigger] x->Sequence_actions[k]).0 < m.actions.len()
        },
{
    match a {
        ActionText::ChangeRoom { required, room, variant, .. } => {
            lemma_opt_item_fits(m, l, required);
            lemma_room_ref(l, room);
            if let Some(t) = variant {
                if action_ref_of(l, a) is Ok {
                    lemma_variant_index_at_most(l.rooms, room, t);
                    lemma_variant_count_below(l.rooms, room);
                    let r = room_ref(l, room)->Ok_0;
                    assert(m.rooms[r.0 as int].len() == 1 + variant_count(l.rooms, distinct_names(l.rooms)[r.0 as int]));
                }
            }
        },
        ActionText::GiveItem { required, items, .. } => {
            lemma_opt_item_fits(m, l, required);
            lemma_item_refs(l, items);
        },
        ActionText::ReplaceItem { original, replacement, .. } => {
            lemma_last_index(l.items, original);
            lemma_last_index(l.items, replacement);
        },
        ActionText::TakeItem { items, .. } => {
            lemma_item_refs(l, items);
        },
        ActionText::Teleport { required, room, .. } => {
            lemma_opt_item_fits(m, l, required);
            lemma_room_ref(l, room);
        },
        ActionText::Sequence { required, actions, .. } => {
            lemma_opt_item_fits(m, l, required);
            lemma_action_refs(l, actions);
        },
    }
}

/// A world that resolves lines up: every index it holds exists, every room and dialogue
/// has a variant, and no action sequence holds another sequence.
pub proof fn law_resolved_world_lines_up(
    title: (Seq<char>, Seq<char>, Seq<char>, Seq<char>),
    theme: Seq<(u8, u8, u8)>,
    language: Seq<Seq<char>>,
    characters: Seq<(Seq<char>, Seq<char>)>,
    items: Seq<(Seq<char>, Seq<char>)>,
    actions: Seq<ActionText>,
    responses: Seq<ResponseText>,
    rooms: Seq<RoomText>,
    dialogues: Seq<DialogueText>,
)
    requires
        resolve_spec(title, theme, language, characters, items, actions, responses, rooms, dialogues) is Ok,
        rooms.len() <= usize::MAX,
        dialogues.len() <= usize::MAX,
    ensures
        model_lines_up(resolve_spec(title, theme, language, characters, items, actions, responses, rooms, dialogues)->Ok_0),
{
    let l = lookups_from(characters, items, actions, responses, rooms, dialogues);
    assert(l.rooms =~= room_keys(rooms));
    assert(l.dialogues =~= dialogue_keys(dialogues));
    let m = resolve_spec(title, theme, language, characters, items, actions, responses, rooms, dialogues)->Ok_0;
    let fc = |c: (Seq<char>, Seq<char>)| character_ref_of(l, c);
    let fa = |a: ActionText| action_ref_of(l, a);
    let fr = |r: ResponseText| response_ref_of(l, r);
    lemma_fold_results_ok(characters, fc);
    lemma_fold_results_ok(actions, fa);
    lemma_fold_results_ok(responses, fr);
    let any_room = |x: RoomVariantModel| true;
    let any_dialogue = |x: DialogueVariantModel| true;
    lemma_rooms_grouped(l, rooms, any_room);
    lemma_dialogues_grouped(l, dialogues, any_dialogue);
    assert(model_fits_lookups(m, l));

    let room_ok = |x: RoomVariantModel| model_room_variant_ok(m, x);
    assert forall|j: int| 0 <= j < rooms.len() && (#[trigger] room_variant_ref_of(l, rooms[j])) is Ok implies room_ok(
        room_variant_ref_of(l, rooms[j])->Ok_0,
    ) by {
        lemma_room_variant_fits(m, l, rooms[j]);
    }
    lemma_rooms_grouped(l, rooms, room_ok);
    let dialogue_ok = |x: DialogueVariantModel| model_dialogue_variant_ok(m, x);
    assert forall|j: int| 0 <= j < dialogues.len() && (#[trigger] dialogue_variant_ref_of(l, dialogues[j])) is Ok implies dialogue_ok(
        dialogue_variant_ref_of(l, dialogues[j])->Ok_0,
    ) by {
        lemma_dialogue_variant_fits(m, l, dialogues[j]);
    }
    lemma_dialogues_grouped(l, dialogues, dialogue_ok);

    lemma_room_ref(l, title.3);
    assert forall|a: int| 0 <= a < m.actions.len() implies model_action_ok(m, #[trigger] m.actions[a]) by {
        lemma_action_fits(m, l, actions[a]);
        if m.actions[a] is Sequence {
            lemma_no_nested_sequence(m.actions, m.actions.len() as int, a);
            let ids = m.actions[a]->Sequence_actions;
            lemma_no_sequence_child(m.actions, ids);
            assert forall|k: int| 0 <= k < ids.len() implies !(m.actions[(#[trigger] ids[k]).0 as int] is Sequence) by {
                assert(!is_sequence_at(m.actions, ids[k].0));
            }
        }
    }
    assert forall|c: int| 0 <= c < m.characters.len() implies (#[trigger] m.characters[c]).1.0 < m.dialogues.len() by {
        lemma_dialogue_ref(l, characters[c].1);
    }
    assert forall|r: int| 0 <= r < m.responses.len() implies model_response_ok(m, #[trigger] m.responses[r]) by {
        lemma_response_fits(m, l, responses[r]);
    }
}

proof fn lemma_fold_steps_len<T>(d: IniModel, n: int, step: spec_fn((Option<Seq<char>>, PropsModel)) -> Step<T>)
    requires
        0 <= n,
    ensures
        fold_steps(d, n, step) is Ok ==> fold_steps(d, n, step)->Ok_0.len() <= n,
    decreases n,
{
    if n > 0 {
        lemma_fold_steps_len(d, n - 1, step);
    }
}

/// A document that parses describes a world that lines up: play can run in it.
pub proof fn law_parsed_world_lines_up(d: IniModel)
    requires
        parse_spec(d) is Ok,
        d.len() <= usize::MAX,
    ensures
        model_lines_up(parse_spec(d)->Ok_0),
{
    lemma_fold_steps_len(d, d.len() as int, rooms_step());
    lemma_fold_steps_len(d, d.len() as int, dialogues_step());
    law_resolved_world_lines_up(
        title_of(d)->Ok_0,
        theme_of(d)->Ok_0,
        language_of(d)->Ok_0,
        characters_of(d)->Ok_0,
        items_of(d)->Ok_0,
        actions_of(d)->Ok_0,
        responses_of(d)->Ok_0,
        rooms_of(d)->Ok_0,
        dialogues_of(d)->Ok_0,
    );
}

} // verus!
