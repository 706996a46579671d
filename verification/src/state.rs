//! The state of a game in play, and the rules that change it.

use std::rc::Rc;
use vstd::prelude::*;

use crate::database::{Database, Lookup, Update};
use crate::proxy::Room;
use crate::entity::{
    ActionEntity, CharacterEntity, DialogueVariantEntity, Language, Requirement, ResponseEntity,
    RoomVariantEntity, Theme,
};
use crate::exits::exit_entries;
use crate::ids::{ActionId, CharacterId, DialogueId, ItemId, ResponseId, RoomId, RoomVariantId};
use crate::item_set::ItemSet;
use crate::world::{is_sequence, World};

verus! {

// ------------------------------------------------------------------ the rules, as mathematics

/// Where the player is, what the player holds, and the active variant of each room
/// (`None` for the default variant).
pub type Progress = (RoomId, Set<ItemId>, Seq<Option<RoomVariantId>>);

/// `held` without the required item, if there is one (a required item is consumed).
pub open spec fn without(held: Set<ItemId>, required: Option<ItemId>) -> Set<ItemId> {
    match required {
        Some(i) => held.remove(i),
        None => held,
    }
}

pub open spec fn opt_seq(i: Option<ItemId>) -> Seq<ItemId> {
    match i {
        Some(x) => seq![x],
        None => Seq::empty(),
    }
}

/// The items the player must hold for an action to work.
pub open spec fn required_items(a: ActionEntity) -> Seq<ItemId> {
    match a {
        ActionEntity::GiveItem(g) => opt_seq(g.required),
        ActionEntity::TakeItem(t) => t.items@,
        ActionEntity::ChangeRoom(c) => opt_seq(c.required),
        ActionEntity::ReplaceItem(r) => seq![r.original],
        ActionEntity::Teleport(t) => opt_seq(t.required),
        ActionEntity::Sequence(s) => opt_seq(s.required),
    }
}

/// Whether the player holds every item the action requires.
pub open spec fn can_perform(held: Set<ItemId>, a: ActionEntity) -> bool {
    forall|k: int| 0 <= k < required_items(a).len() ==> held.contains(#[trigger] required_items(a)[k])
}

/// The effect of an action other than a sequence.
pub open spec fn leaf_effect(p: Progress, a: ActionEntity) -> Progress {
    match a {
        ActionEntity::ChangeRoom(c) => (p.0, without(p.1, c.required), p.2.update(c.room.0 as int, c.variant)),
        ActionEntity::GiveItem(g) => (p.0, without(p.1, g.required).union(g.items@.to_set()), p.2),
        ActionEntity::TakeItem(t) => (p.0, p.1.difference(t.items@.to_set()), p.2),
        ActionEntity::ReplaceItem(r) => (p.0, p.1.remove(r.original).insert(r.replacement), p.2),
        ActionEntity::Teleport(t) => (t.room, without(p.1, t.required), p.2),
        ActionEntity::Sequence(_) => p,
    }
}

/// The effect of the actions `ids`, one after the other, none of them a sequence.
pub open spec fn sequence_effect(actions: Seq<ActionEntity>, ids: Seq<ActionId>, p: Progress) -> Progress
    decreases ids.len(),
{
    if ids.len() == 0 {
        p
    } else {
        leaf_effect(sequence_effect(actions, ids.drop_last(), p), actions[ids.last().0 as int])
    }
}

/// The effect of performing an action (its requirement already checked).
pub open spec fn action_effect(actions: Seq<ActionEntity>, p: Progress, a: ActionEntity) -> Progress {
    match a {
        ActionEntity::Sequence(s) => sequence_effect(actions, s.actions@, (p.0, without(p.1, s.required), p.2)),
        _ => leaf_effect(p, a),
    }
}

/// Whether a requirement of a dialogue or response holds.
pub open spec fn requirement_met(held: Set<ItemId>, variants: Seq<Option<RoomVariantId>>, q: Requirement) -> bool {
    match q {
        Requirement::HasItem(i) => held.contains(i),
        Requirement::DoesNotHave(i) => !held.contains(i),
        Requirement::RoomVariant(r, v) => v == variants[r.0 as int],
    }
}

pub open spec fn all_met(held: Set<ItemId>, variants: Seq<Option<RoomVariantId>>, qs: Seq<Requirement>) -> bool {
    forall|k: int| 0 <= k < qs.len() ==> requirement_met(held, variants, #[trigger] qs[k])
}

/// A dialogue variant that may be shown in place of the default: it has requirements
/// and all of them hold.
pub open spec fn eligible(held: Set<ItemId>, variants: Seq<Option<RoomVariantId>>, dv: DialogueVariantEntity) -> bool {
    dv.requires@.len() > 0 && all_met(held, variants, dv.requires@)
}

/// Among the first `n` variants, the last eligible one with the most requirements, or -1.
pub open spec fn best_variant(held: Set<ItemId>, variants: Seq<Option<RoomVariantId>>, d: Seq<DialogueVariantEntity>, n: int) -> int
    decreases n,
{
    if n <= 0 {
        -1
    } else {
        let b = best_variant(held, variants, d, n - 1);
        if eligible(held, variants, d[n - 1]) && (b < 0 || d[n - 1].requires@.len() >= d[b].requires@.len()) {
            n - 1
        } else {
            b
        }
    }
}

/// The variant of a dialogue that is shown: the best eligible one, else the default.
pub open spec fn chosen_variant(held: Set<ItemId>, variants: Seq<Option<RoomVariantId>>, d: Seq<DialogueVariantEntity>) -> int {
    let b = best_variant(held, variants, d, d.len() as int);
    if b < 0 { 0 } else { b }
}

/// The index of the active variant of room `r`.
pub open spec fn variant_index(variants: Seq<Option<RoomVariantId>>, r: RoomId) -> int {
    match variants[r.0 as int] {
        Some(v) => v.0 as int,
        None => 0,
    }
}

/// Whether a progress fits a world: every index it holds exists there.
pub open spec fn progress_fits(w: World, p: Progress) -> bool {
    &&& w.valid_room(p.0)
    &&& forall|i: ItemId| #[trigger] p.1.contains(i) ==> w.valid_item(i)
    &&& p.1.finite()
    &&& p.2.len() == w.rooms@.len()
    &&& forall|r: int| 0 <= r < p.2.len() ==> (#[trigger] p.2[r] matches Some(v) ==> w.valid_variant(RoomId(r as usize), v))
}

} // verus!

verus! {

pub proof fn lemma_leaf_effect_fits(w: World, p: Progress, a: ActionEntity)
    requires
        w.wf(),
        w.valid_action_entity(a),
        progress_fits(w, p),
    ensures
        progress_fits(w, leaf_effect(p, a)),
{
    let q = leaf_effect(p, a);
    match a {
        ActionEntity::GiveItem(g) => {
            assert forall|i: ItemId| #[trigger] q.1.contains(i) implies w.valid_item(i) by {
                if g.items@.to_set().contains(i) {
                    assert(g.items@.contains(i));
                    let k = choose|k: int| 0 <= k < g.items@.len() && g.items@[k] == i;
                    assert(w.valid_item(g.items@[k]));
                }
            }
            vstd::seq_lib::seq_to_set_is_finite(g.items@);
        },
        ActionEntity::ChangeRoom(c) => {
            assert forall|r: int| 0 <= r < q.2.len() implies (#[trigger] q.2[r] matches Some(v) ==> w.valid_variant(RoomId(r as usize), v)) by {
                if r == c.room.0 as int {
                    assert(RoomId(r as usize) == c.room);
                }
            }
        },
        _ => {},
    }
}

pub proof fn lemma_sequence_effect_fits(w: World, ids: Seq<ActionId>, p: Progress)
    requires
        w.wf(),
        forall|k: int| 0 <= k < ids.len() ==> w.valid_action(#[trigger] ids[k]),
        progress_fits(w, p),
    ensures
        progress_fits(w, sequence_effect(w.actions@, ids, p)),
    decreases ids.len(),
{
    if ids.len() > 0 {
        lemma_sequence_effect_fits(w, ids.drop_last(), p);
        assert(w.valid_action(ids[ids.len() - 1]));
        lemma_leaf_effect_fits(w, sequence_effect(w.actions@, ids.drop_last(), p), w.actions@[ids.last().0 as int]);
    }
}

pub proof fn lemma_action_effect_fits(w: World, p: Progress, a: ActionEntity)
    requires
        w.wf(),
        w.valid_action_entity(a),
        progress_fits(w, p),
    ensures
        progress_fits(w, action_effect(w.actions@, p, a)),
{
    match a {
        ActionEntity::Sequence(s) => {
            let p1 = (p.0, without(p.1, s.required), p.2);
            assert(progress_fits(w, p1));
            assert forall|k: int| 0 <= k < s.actions@.len() implies w.valid_action(#[trigger] s.actions@[k]) by {}
            lemma_sequence_effect_fits(w, s.actions@, p1);
        },
        _ => lemma_leaf_effect_fits(w, p, a),
    }
}

} // verus!

verus! {

proof fn lemma_take_to_set<A>(s: Seq<A>, k: int)
    requires
        0 <= k < s.len(),
    ensures
        s.take(k + 1).to_set() == s.take(k).to_set().insert(s[k]),
{
    assert(s.take(k + 1) == s.take(k).push(s[k]));
    s.take(k).lemma_push_to_set_commute(s[k]);
}

fn holds_optional(inv: &ItemSet, r: Option<ItemId>) -> (b: bool)
    requires
        inv.wf(),
    ensures
        b == (forall|k: int| 0 <= k < opt_seq(r).len() ==> inv@.contains(#[trigger] opt_seq(r)[k])),
{
    match r {
        Some(x) => {
            let b = inv.contains(x);
            assert(opt_seq(r)[0] == x);
            b
        },
        None => true,
    }
}

fn holds_required(inv: &ItemSet, a: &ActionEntity) -> (b: bool)
    requires
        inv.wf(),
    ensures
        b == can_perform(inv@, *a),
{
    match a {
        ActionEntity::GiveItem(g) => holds_optional(inv, g.required),
        ActionEntity::TakeItem(t) => {
            let mut k: usize = 0;
            while k < t.items.len()
                invariant
                    inv.wf(),
                    *a == ActionEntity::TakeItem(*t),
                    k <= t.items@.len(),
                    forall|j: int| 0 <= j < k ==> inv@.contains(#[trigger] t.items@[j]),
                decreases t.items.len() - k,
            {
                if !inv.contains(t.items[k]) {
                    assert(required_items(*a)[k as int] == t.items@[k as int]);
                    return false;
                }
                k += 1;
            }
            true
        },
        ActionEntity::ChangeRoom(c) => holds_optional(inv, c.required),
        ActionEntity::ReplaceItem(r) => {
            let b = inv.contains(r.original);
            assert(required_items(*a)[0] == r.original);
            b
        },
        ActionEntity::Teleport(t) => holds_optional(inv, t.required),
        ActionEntity::Sequence(s) => holds_optional(inv, s.required),
    }
}

fn consume_required(inv: &mut ItemSet, required: Option<ItemId>)
    requires
        old(inv).wf(),
    ensures
        final(inv).wf(),
        final(inv)@ == without(old(inv)@, required),
{
    if let Some(r) = required {
        inv.remove(r);
    }
}

/// Performs an action other than a sequence, without checking its requirement.
fn complete_leaf(
    world: &World,
    inv: &mut ItemSet,
    variants: &mut Vec<Option<RoomVariantId>>,
    room: &mut RoomId,
    a: &ActionEntity,
)
    requires
        world.wf(),
        world.valid_action_entity(*a),
        old(inv).wf(),
        progress_fits(*world, (*old(room), old(inv)@, old(variants)@)),
    ensures
        final(inv).wf(),
        (*final(room), final(inv)@, final(variants)@) == leaf_effect((*old(room), old(inv)@, old(variants)@), *a),
{
    match a {
        ActionEntity::ChangeRoom(c) => {
            consume_required(inv, c.required);
            variants.set(c.room.0, c.variant);
        },
        ActionEntity::GiveItem(g) => {
            consume_required(inv, g.required);
            let ghost base = inv@;
            let mut k: usize = 0;
            while k < g.items.len()
                invariant
                    inv.wf(),
                    k <= g.items@.len(),
                    inv@ == base.union(g.items@.take(k as int).to_set()),
                decreases g.items.len() - k,
            {
                proof {
                    lemma_take_to_set(g.items@, k as int);
                }
                inv.insert(g.items[k]);
                assert(inv@ =~= base.union(g.items@.take(k as int + 1).to_set()));
                k += 1;
            }
            assert(g.items@.take(g.items@.len() as int) == g.items@);
        },
        ActionEntity::TakeItem(t) => {
            let ghost base = inv@;
            let mut k: usize = 0;
            while k < t.items.len()
                invariant
                    inv.wf(),
                    k <= t.items@.len(),
                    inv@ == base.difference(t.items@.take(k as int).to_set()),
                decreases t.items.len() - k,
            {
                proof {
                    lemma_take_to_set(t.items@, k as int);
                }
                inv.remove(t.items[k]);
                assert(inv@ =~= base.difference(t.items@.take(k as int + 1).to_set()));
                k += 1;
            }
            assert(t.items@.take(t.items@.len() as int) == t.items@);
        },
        ActionEntity::ReplaceItem(r) => {
            inv.remove(r.original);
            inv.insert(r.replacement);
        },
        ActionEntity::Teleport(t) => {
            consume_required(inv, t.required);
            *room = t.room;
        },
        ActionEntity::Sequence(_) => {},
    }
}

/// Performs an action, without checking its requirement; a sequence performs each of
/// its actions in turn.
fn complete_action(
    world: &World,
    inv: &mut ItemSet,
    variants: &mut Vec<Option<RoomVariantId>>,
    room: &mut RoomId,
    a: &ActionEntity,
)
    requires
        world.wf(),
        world.valid_action_entity(*a),
        old(inv).wf(),
        progress_fits(*world, (*old(room), old(inv)@, old(variants)@)),
    ensures
        final(inv).wf(),
        (*final(room), final(inv)@, final(variants)@) == action_effect(world.actions@, (*old(room), old(inv)@, old(variants)@), *a),
        progress_fits(*world, (*final(room), final(inv)@, final(variants)@)),
{
    proof {
        lemma_action_effect_fits(*world, (*room, inv@, variants@), *a);
    }
    match a {
        ActionEntity::Sequence(s) => {
            consume_required(inv, s.required);
            let ghost start: Progress = (*room, inv@, variants@);
            let mut k: usize = 0;
            while k < s.actions.len()
                invariant
                    world.wf(),
                    world.valid_action_entity(*a),
                    *a == ActionEntity::Sequence(*s),
                    inv.wf(),
                    k <= s.actions@.len(),
                    progress_fits(*world, start),
                    (*room, inv@, variants@) == sequence_effect(world.actions@, s.actions@.take(k as int), start),
                decreases s.actions.len() - k,
            {
                let id = s.actions[k];
                proof {
                    assert(s.actions@.take(k as int + 1).drop_last() == s.actions@.take(k as int));
                    assert forall|j: int| 0 <= j < k implies world.valid_action(#[trigger] s.actions@.take(k as int)[j]) by {
                        assert(s.actions@.take(k as int)[j] == s.actions@[j]);
                    }
                    lemma_sequence_effect_fits(*world, s.actions@.take(k as int), start);
                    assert(world.valid_action(s.actions@[k as int]));
                }
                complete_leaf(world, inv, variants, room, &world.actions[id.0]);
                k += 1;
            }
            assert(s.actions@.take(s.actions@.len() as int) == s.actions@);
        },
        _ => {
            proof {
                lemma_leaf_effect_fits(*world, (*room, inv@, variants@), *a);
            }
            complete_leaf(world, inv, variants, room, a);
        },
    }
}

} // verus!

verus! {

/// A game in play: the world, where the player is, what the player holds, and the
/// active variant of each room.
#[derive(Debug)]
pub struct GameState {
    world: World,
    current_room: RoomId,
    inventory: ItemSet,
    active_room_variants: Vec<Option<RoomVariantId>>,
}

fn all_requirements_met(
    inv: &ItemSet,
    variants: &Vec<Option<RoomVariantId>>,
    rooms: usize,
    qs: &Vec<Requirement>,
) -> (b: bool)
    requires
        inv.wf(),
        variants@.len() == rooms,
        forall|k: int| 0 <= k < qs@.len() ==> (#[trigger] qs@[k] matches Requirement::RoomVariant(r, _) ==> r.0 < rooms),
    ensures
        b == all_met(inv@, variants@, qs@),
{
    let mut k: usize = 0;
    while k < qs.len()
        invariant
            inv.wf(),
            variants@.len() == rooms,
            forall|j: int| 0 <= j < qs@.len() ==> (#[trigger] qs@[j] matches Requirement::RoomVariant(r, _) ==> r.0 < rooms),
            k <= qs@.len(),
            forall|j: int| 0 <= j < k ==> requirement_met(inv@, variants@, #[trigger] qs@[j]),
        decreases qs.len() - k,
    {
        let met = match &qs[k] {
            Requirement::HasItem(i) => inv.contains(*i),
            Requirement::DoesNotHave(i) => !inv.contains(*i),
            Requirement::RoomVariant(r, v) => *v == variants[r.0],
        };
        if !met {
            return false;
        }
        k += 1;
    }
    true
}

impl GameState {
    /// The world the game is played in.
    pub closed spec fn world_of(&self) -> World {
        self.world
    }

    /// Where the player is, what the player holds, and the active room variants.
    pub closed spec fn progress(&self) -> Progress {
        (self.current_room, self.inventory@, self.active_room_variants@)
    }

    /// The items the player holds, in ascending index order.
    pub closed spec fn inventory_order(&self) -> Seq<ItemId> {
        self.inventory.ordered()
    }

    /// The state is consistent with its world.
    pub closed spec fn inv(&self) -> bool {
        &&& self.world.wf()
        &&& self.inventory.wf()
        &&& progress_fits(self.world, self.progress())
    }

    pub proof fn lemma_inv(&self)
        requires
            self.inv(),
        ensures
            self.world_of().wf(),
            progress_fits(self.world_of(), self.progress()),
            self.progress().1.finite(),
            forall|x: ItemId| #[trigger] self.progress().1.contains(x) <==> self.inventory_order().contains(x),
            strictly_ascending_ids(self.inventory_order()),
    {
        self.inventory.lemma_ordered();
    }

    /// A new game: the player starts in the start room with nothing, and every room
    /// shows its default variant.
    pub fn new(world: World) -> (s: GameState)
        requires
            world.wf(),
        ensures
            s.inv(),
            s.world_of() == world,
            s.progress().0 == world.title.start_room,
            s.progress().1 == Set::<ItemId>::empty(),
            s.progress().2 == Seq::new(world.rooms@.len(), |r: int| None::<RoomVariantId>),
    {
        let current_room = world.title.start_room;
        let mut active_room_variants: Vec<Option<RoomVariantId>> = Vec::new();
        let mut k: usize = 0;
        while k < world.rooms.len()
            invariant
                k <= world.rooms@.len(),
                active_room_variants@ == Seq::new(k as nat, |r: int| None::<RoomVariantId>),
            decreases world.rooms.len() - k,
        {
            active_room_variants.push(None);
            k += 1;
            assert(active_room_variants@ =~= Seq::new(k as nat, |r: int| None::<RoomVariantId>));
        }
        let s = GameState { world, current_room, inventory: ItemSet::new(), active_room_variants };
        proof {
            s.inventory.lemma_ordered();
        }
        s
    }

    pub fn title(&self) -> (r: &String)
        ensures
            *r == self.world_of().title.title,
    {
        &self.world.title.title
    }

    pub fn greeting(&self) -> (r: &String)
        ensures
            *r == self.world_of().title.greeting,
    {
        &self.world.title.greeting
    }

    pub fn credits(&self) -> (r: &String)
        ensures
            *r == self.world_of().title.credits,
    {
        &self.world.title.credits
    }

    pub fn theme(&self) -> (r: Rc<Theme>)
        ensures
            *r == *self.world_of().theme,
    {
        self.world.theme()
    }

    pub fn language(&self) -> (r: Rc<Language>)
        ensures
            *r == *self.world_of().language,
    {
        self.world.language()
    }

    /// Whether the player holds anything.
    pub fn has_inventory(&self) -> (b: bool)
        requires
            self.inv(),
        ensures
            b == (self.progress().1 != Set::<ItemId>::empty()),
    {
        !self.inventory.is_empty()
    }

    /// The descriptions of the items the player holds, in ascending item order.
    pub fn inventory(&self) -> (r: Vec<String>)
        requires
            self.inv(),
        ensures
            r@.len() == self.inventory_order().len(),
            forall|k: int| 0 <= k < r@.len() ==> #[trigger] r@[k]@
                == self.world_of().items@[self.inventory_order()[k].0 as int].description@,
    {
        proof {
            self.inventory.lemma_ordered();
        }
        let mut r: Vec<String> = Vec::new();
        let n = self.inventory.len();
        let mut k: usize = 0;
        while k < n
            invariant
                self.inv(),
                n == self.inventory.ordered().len(),
                k <= n,
                r@.len() == k,
                forall|j: int| 0 <= j < k ==> #[trigger] r@[j]@
                    == self.world.items@[self.inventory.ordered()[j].0 as int].description@,
            decreases n - k,
        {
            let id = self.inventory.get(k);
            proof {
                self.inventory.lemma_ordered();
                assert(self.inventory.ordered().contains(id));
                assert(self.inventory@.contains(id));
            }
            r.push(self.world.item(id).description.clone());
            k += 1;
        }
        r
    }

    /// Whether a requirement holds in this state.
    fn requirement_met(&self, requirement: &Requirement) -> (b: bool)
        requires
            self.inv(),
            self.world_of().valid_requirement(*requirement),
        ensures
            b == requirement_met(self.progress().1, self.progress().2, *requirement),
    {
        match requirement {
            Requirement::HasItem(i) => self.inventory.contains(*i),
            Requirement::DoesNotHave(i) => !self.inventory.contains(*i),
            Requirement::RoomVariant(r, v) => *v == self.active_room_variants[r.0],
        }
    }

    /// Whether the player holds every item the action requires.
    fn action_requirement_met(&self, action: &ActionEntity) -> (b: bool)
        requires
            self.inv(),
        ensures
            b == can_perform(self.progress().1, *action),
    {
        holds_required(&self.inventory, action)
    }
}

pub open spec fn strictly_ascending_ids(s: Seq<ItemId>) -> bool {
    forall|i: int, j: int| 0 <= i < j < s.len() ==> s[i].0 < s[j].0
}

} // verus!

verus! {

impl GameState {
    /// Whether response `id` may be given now: all of its requirements hold.
    pub closed spec fn response_allowed(&self, id: ResponseId) -> bool {
        all_met(self.inventory@, self.active_room_variants@, self.world.responses@[id.0 as int].requires@)
    }
}

impl Lookup for GameState {
    closed spec fn lookup_inv(&self) -> bool {
        self.inv()
    }

    closed spec fn character_count(&self) -> nat {
        self.world.characters@.len()
    }

    closed spec fn action_count(&self) -> nat {
        self.world.actions@.len()
    }

    closed spec fn room_count(&self) -> nat {
        self.world.rooms@.len()
    }

    closed spec fn dialogue_count(&self) -> nat {
        self.world.dialogues@.len()
    }

    closed spec fn response_count(&self) -> nat {
        self.world.responses@.len()
    }

    closed spec fn character_at(&self, id: CharacterId) -> CharacterEntity {
        self.world.characters@[id.0 as int]
    }

    closed spec fn action_at(&self, id: ActionId) -> ActionEntity {
        self.world.actions@[id.0 as int]
    }

    closed spec fn room_at(&self, id: RoomId) -> RoomVariantEntity {
        self.world.rooms@[id.0 as int]@[variant_index(self.active_room_variants@, id)]
    }

    closed spec fn dialogue_at(&self, id: DialogueId) -> DialogueVariantEntity {
        let d = self.world.dialogues@[id.0 as int]@;
        d[chosen_variant(self.inventory@, self.active_room_variants@, d)]
    }

    closed spec fn response_at(&self, id: ResponseId) -> ResponseEntity {
        self.world.responses@[id.0 as int]
    }

    closed spec fn responses_shown(&self, ids: Seq<ResponseId>) -> Seq<ResponseId> {
        ids.filter(|r: ResponseId| self.response_allowed(r))
    }

    fn lookup_character(&self, id: CharacterId) -> (r: &CharacterEntity) {
        self.world.character(id)
    }

    fn lookup_action(&self, id: ActionId) -> (r: &ActionEntity) {
        self.world.action(id)
    }

    fn lookup_room(&self, id: RoomId) -> (r: &RoomVariantEntity) {
        let variant_id = self.active_room_variants[id.0];
        let r = self.world.room(id, variant_id);
        proof {
            let v = variant_index(self.active_room_variants@, id);
            assert(self.world.valid_room_variant(self.world.rooms@[id.0 as int]@[v]));
        }
        r
    }

    fn lookup_dialogue(&self, id: DialogueId) -> (r: &DialogueVariantEntity) {
        let variants = self.world.dialogue(id);
        let ghost held = self.inventory@;
        let ghost active = self.active_room_variants@;
        let mut best: Option<usize> = None;
        let mut i: usize = 0;
        while i < variants.len()
            invariant
                self.inv(),
                id.0 < self.world.dialogues@.len(),
                *variants == self.world.dialogues@[id.0 as int],
                held == self.inventory@,
                active == self.active_room_variants@,
                i <= variants@.len(),
                best matches Some(b) ==> b < i,
                (match best {
                    Some(b) => b as int,
                    None => -1,
                }) == best_variant(held, active, variants@, i as int),
            decreases variants.len() - i,
        {
            let dv = &variants[i];
            proof {
                assert(self.world.valid_dialogue_variant(*dv));
            }
            if dv.requires.len() > 0 && all_requirements_met(
                &self.inventory,
                &self.active_room_variants,
                self.world.rooms.len(),
                &dv.requires,
            ) {
                match best {
                    None => {
                        best = Some(i);
                    },
                    Some(b) => {
                        if dv.requires.len() >= variants[b].requires.len() {
                            best = Some(i);
                        }
                    },
                }
            }
            i += 1;
        }
        match best {
            Some(b) => &variants[b],
            None => &variants[0],
        }
    }

    fn lookup_response(&self, id: ResponseId) -> (r: &ResponseEntity) {
        self.world.response(id)
    }

    fn filter_responses(&self, unfiltered: &[ResponseId]) -> (r: Vec<ResponseId>) {
        let ghost pred = |r: ResponseId| self.response_allowed(r);
        let mut out: Vec<ResponseId> = Vec::new();
        let mut k: usize = 0;
        while k < unfiltered.len()
            invariant
                self.inv(),
                forall|j: int| 0 <= j < unfiltered@.len() ==> #[trigger] unfiltered@[j].0 < self.world.responses@.len(),
                pred == (|r: ResponseId| self.response_allowed(r)),
                k <= unfiltered@.len(),
                out@ == unfiltered@.take(k as int).filter(pred),
                forall|j: int| 0 <= j < out@.len() ==> #[trigger] out@[j].0 < self.world.responses@.len(),
            decreases unfiltered.len() - k,
        {
            let id = unfiltered[k];
            let response = self.world.response(id);
            proof {
                assert(self.world.valid_response_entity(*response));
                reveal_with_fuel(Seq::<ResponseId>::filter, 1);
                assert(unfiltered@.take(k as int + 1).drop_last() == unfiltered@.take(k as int));
                assert(unfiltered@.take(k as int + 1).last() == id);
            }
            if all_requirements_met(&self.inventory, &self.active_room_variants, self.world.rooms.len(), &response.requires) {
                out.push(id);
            }
            k += 1;
        }
        assert(unfiltered@.take(unfiltered@.len() as int) == unfiltered@);
        out
    }
}

impl Update for GameState {
    closed spec fn update_inv(&self) -> bool {
        self.inv()
    }

    closed spec fn can_enter(&self, id: RoomId) -> bool {
        self.world.valid_room(id)
    }

    closed spec fn can_act(&self, id: ActionId) -> bool {
        self.world.valid_action(id)
    }

    closed spec fn entered(&self, id: RoomId, next: Self) -> bool {
        &&& next.world == self.world
        &&& next.progress() == (id, self.progress().1, self.progress().2)
    }

    closed spec fn acted(&self, id: ActionId, done: bool, next: Self) -> bool {
        let a = self.world.actions@[id.0 as int];
        &&& next.world == self.world
        &&& done == can_perform(self.progress().1, a)
        &&& next.progress() == if done {
            action_effect(self.world.actions@, self.progress(), a)
        } else {
            self.progress()
        }
    }

    fn enter_room(&mut self, id: RoomId) {
        self.current_room = id;
    }

    fn do_action(&mut self, id: ActionId) -> (done: bool) {
        let action = &self.world.actions[id.0];
        if holds_required(&self.inventory, action) {
            complete_action(
                &self.world,
                &mut self.inventory,
                &mut self.active_room_variants,
                &mut self.current_room,
                action,
            );
            true
        } else {
            false
        }
    }
}

} // verus!

verus! {

impl Database for GameState {}

impl GameState {
    /// The room the player is in.
    pub fn current_room(&self) -> (r: Room<'_, GameState>)
        requires
            self.inv(),
        ensures
            r.id_of() == self.progress().0,
            r.db_of() == *self,
            r.valid(),
    {
        Room::new(self.current_room, self)
    }
}

} // verus!

verus! {

// ------------------------------------------------------------------ laws of play

/// What the best variant among the first `n` is: eligible, with the most requirements,
/// and the last such; -1 when none of them is eligible.
pub proof fn lemma_best_variant(held: Set<ItemId>, variants: Seq<Option<RoomVariantId>>, d: Seq<DialogueVariantEntity>, n: int)
    requires
        0 <= n <= d.len(),
    ensures
        -1 <= best_variant(held, variants, d, n) < n,
        best_variant(held, variants, d, n) < 0 ==> forall|j: int| 0 <= j < n ==> !eligible(held, variants, #[trigger] d[j]),
        best_variant(held, variants, d, n) >= 0 ==> {
            let b = best_variant(held, variants, d, n);
            &&& eligible(held, variants, d[b])
            &&& forall|j: int| 0 <= j < n && eligible(held, variants, #[trigger] d[j]) ==> d[j].requires@.len() <= d[b].requires@.len()
            &&& forall|j: int| b < j < n && eligible(held, variants, #[trigger] d[j]) ==> d[j].requires@.len() < d[b].requires@.len()
        },
    decreases n,
{
    if n > 0 {
        lemma_best_variant(held, variants, d, n - 1);
    }
}

/// When no conditional variant of a dialogue has all of its requirements met, the
/// default variant is shown.
pub proof fn law_default_dialogue_when_no_variant_applies(s: GameState, id: DialogueId)
    requires
        s.inv(),
        s.world_of().valid_dialogue(id),
        forall|j: int| 0 <= j < s.world_of().dialogues@[id.0 as int]@.len()
            ==> !eligible(s.progress().1, s.progress().2, #[trigger] s.world_of().dialogues@[id.0 as int]@[j]),
    ensures
        s.dialogue_at(id) == s.world_of().dialogues@[id.0 as int]@[0],
{
    let d = s.world.dialogues@[id.0 as int]@;
    lemma_best_variant(s.inventory@, s.active_room_variants@, d, d.len() as int);
}

/// The dialogue variant shown is either the default one (when no other applies) or one
/// whose requirements all hold, with no applicable variant having more requirements.
pub proof fn law_dialogue_variant_is_most_specific(s: GameState, id: DialogueId)
    requires
        s.inv(),
        s.world_of().valid_dialogue(id),
    ensures
        ({
            let d = s.world_of().dialogues@[id.0 as int]@;
            let c = chosen_variant(s.progress().1, s.progress().2, d);
            &&& 0 <= c < d.len()
            &&& s.dialogue_at(id) == d[c]
            &&& (exists|j: int| 0 <= j < d.len() && eligible(s.progress().1, s.progress().2, #[trigger] d[j]))
                ==> eligible(s.progress().1, s.progress().2, d[c])
            &&& forall|j: int| 0 <= j < d.len() && eligible(s.progress().1, s.progress().2, #[trigger] d[j])
                ==> d[j].requires@.len() <= d[c].requires@.len()
        }),
{
    let d = s.world.dialogues@[id.0 as int]@;
    assert(d.len() > 0);
    lemma_best_variant(s.inventory@, s.active_room_variants@, d, d.len() as int);
}

/// An action whose requirement is not met changes nothing.
pub proof fn law_failed_action_changes_nothing(s: GameState, id: ActionId, next: GameState)
    requires
        s.acted(id, false, next),
    ensures
        next.progress() == s.progress(),
        next.world_of() == s.world_of(),
{
}

/// What trying an action does: it succeeds exactly when the player holds every item it
/// requires; then the game moves on by the action's effect, and otherwise nothing changes.
pub proof fn law_action_outcome(s: GameState, id: ActionId, done: bool, next: GameState)
    requires
        s.acted(id, done, next),
    ensures
        next.world_of() == s.world_of(),
        done == can_perform(s.progress().1, s.world_of().actions@[id.0 as int]),
        done ==> next.progress() == action_effect(
            s.world_of().actions@,
            s.progress(),
            s.world_of().actions@[id.0 as int],
        ),
        !done ==> next.progress() == s.progress(),
{
}

/// An action succeeds exactly when the player holds every item it requires.
pub proof fn law_action_succeeds_iff_requirements_held(s: GameState, id: ActionId, done: bool, next: GameState)
    requires
        s.acted(id, done, next),
    ensures
        done == can_perform(s.progress().1, s.world_of().actions@[id.0 as int]),
{
}

/// The item an action requires is used up: after a room change or a teleport, the
/// player no longer holds it.
pub proof fn law_required_item_is_consumed(actions: Seq<ActionEntity>, p: Progress, a: ActionEntity, r: ItemId)
    requires
        a matches ActionEntity::ChangeRoom(c) ==> c.required == Some(r),
        a matches ActionEntity::Teleport(t) ==> t.required == Some(r),
        a is ChangeRoom || a is Teleport,
    ensures
        !action_effect(actions, p, a).1.contains(r),
{
}

/// Whether performing `a` on its own can put item `r` in the inventory.
pub open spec fn can_give(a: ActionEntity, r: ItemId) -> bool {
    match a {
        ActionEntity::GiveItem(g) => g.items@.contains(r),
        ActionEntity::ReplaceItem(x) => x.replacement == r,
        _ => false,
    }
}

proof fn lemma_sequence_keeps_out(actions: Seq<ActionEntity>, ids: Seq<ActionId>, p: Progress, r: ItemId)
    requires
        !p.1.contains(r),
        forall|k: int| 0 <= k < ids.len() ==> !can_give(actions[(#[trigger] ids[k]).0 as int], r),
    ensures
        !sequence_effect(actions, ids, p).1.contains(r),
    decreases ids.len(),
{
    if ids.len() > 0 {
        let rest = ids.drop_last();
        assert forall|k: int| 0 <= k < rest.len() implies !can_give(actions[(#[trigger] rest[k]).0 as int], r) by {
            assert(rest[k] == ids[k]);
        }
        lemma_sequence_keeps_out(actions, rest, p, r);
        let a = actions[ids.last().0 as int];
        assert(!can_give(a, r)) by {
            assert(ids[ids.len() - 1] == ids.last());
        }
        match a {
            ActionEntity::GiveItem(g) => {
                assert(!g.items@.to_set().contains(r));
            },
            _ => {},
        }
    }
}

/// The item a sequence requires is used up before its actions run: afterwards the
/// player does not hold it, unless one of those actions gives it back.
pub proof fn law_sequence_required_item_is_consumed(
    actions: Seq<ActionEntity>,
    p: Progress,
    s: crate::entity::Sequence,
    r: ItemId,
)
    requires
        s.required == Some(r),
        forall|k: int| 0 <= k < s.actions@.len() ==> !can_give(actions[(#[trigger] s.actions@[k]).0 as int], r),
    ensures
        !action_effect(actions, p, ActionEntity::Sequence(s)).1.contains(r),
{
    lemma_sequence_keeps_out(actions, s.actions@, (p.0, without(p.1, s.required), p.2), r);
}

/// After an item is given, the player holds it.
pub proof fn law_given_items_are_held(actions: Seq<ActionEntity>, p: Progress, g: crate::entity::GiveItem, i: ItemId)
    requires
        g.items@.contains(i),
    ensures
        action_effect(actions, p, ActionEntity::GiveItem(g)).1.contains(i),
{
}

/// Giving items keeps everything the player held, except the action's required item,
/// which is used up unless it is among the items given; the given items are added and
/// nothing else appears. The player stays where they are and no room changes.
pub proof fn law_giving_keeps_what_was_held(
    actions: Seq<ActionEntity>,
    p: Progress,
    g: crate::entity::GiveItem,
    i: ItemId,
)
    ensures
        ({
            let after = action_effect(actions, p, ActionEntity::GiveItem(g));
            &&& p.1.contains(i) && g.required != Some(i) ==> after.1.contains(i)
            &&& g.items@.contains(i) ==> after.1.contains(i)
            &&& after.1.contains(i) ==> p.1.contains(i) || g.items@.contains(i)
            &&& g.required == Some(i) && !g.items@.contains(i) ==> !after.1.contains(i)
            &&& after.0 == p.0
            &&& after.2 == p.2
        }),
{
}

/// A room-variant requirement follows the rooms' variants: in a game where every room
/// shows its default variant, it is met exactly when it names the default variant; after
/// a room change it is met for that room exactly when it names the variant set.
pub proof fn law_room_variant_requirement_follows_rooms(
    actions: Seq<ActionEntity>,
    p: Progress,
    held: Set<ItemId>,
    r: RoomId,
    v: Option<RoomVariantId>,
    c: crate::entity::ChangeRoom,
)
    requires
        r.0 < p.2.len(),
        c.room.0 < p.2.len(),
    ensures
        (forall|k: int| 0 <= k < p.2.len() ==> #[trigger] p.2[k] is None) ==> (requirement_met(
            held,
            p.2,
            Requirement::RoomVariant(r, v),
        ) <==> v is None),
        requirement_met(
            held,
            action_effect(actions, p, ActionEntity::ChangeRoom(c)).2,
            Requirement::RoomVariant(c.room, v),
        ) <==> v == c.variant,
        r != c.room ==> (requirement_met(
            held,
            action_effect(actions, p, ActionEntity::ChangeRoom(c)).2,
            Requirement::RoomVariant(r, v),
        ) <==> requirement_met(held, p.2, Requirement::RoomVariant(r, v))),
{
}

/// After items are taken, the player holds none of them.
pub proof fn law_taken_items_are_gone(actions: Seq<ActionEntity>, p: Progress, t: crate::entity::TakeItem, i: ItemId)
    requires
        t.items@.contains(i),
    ensures
        !action_effect(actions, p, ActionEntity::TakeItem(t)).1.contains(i),
{
}

/// Replacing an item leaves the replacement in the inventory and the original gone
/// (unless it is its own replacement); nothing else changes.
pub proof fn law_replace_item(actions: Seq<ActionEntity>, p: Progress, r: crate::entity::ReplaceItem)
    ensures
        action_effect(actions, p, ActionEntity::ReplaceItem(r)).1.contains(r.replacement),
        r.original != r.replacement ==> !action_effect(actions, p, ActionEntity::ReplaceItem(r)).1.contains(r.original),
        forall|i: ItemId| i != r.original && i != r.replacement ==>
            (action_effect(actions, p, ActionEntity::ReplaceItem(r)).1.contains(i) == p.1.contains(i)),
        action_effect(actions, p, ActionEntity::ReplaceItem(r)).0 == p.0,
        action_effect(actions, p, ActionEntity::ReplaceItem(r)).2 == p.2,
{
}

/// A teleport puts the player in its room.
pub proof fn law_teleport_moves_player(actions: Seq<ActionEntity>, p: Progress, t: crate::entity::Teleport)
    ensures
        action_effect(actions, p, ActionEntity::Teleport(t)).0 == t.room,
{
}

/// After a room change, the room shows the variant it names (the default one for `None`),
/// and every other room keeps its variant.
pub proof fn law_change_room_sets_variant(actions: Seq<ActionEntity>, p: Progress, c: crate::entity::ChangeRoom)
    requires
        c.room.0 < p.2.len(),
    ensures
        action_effect(actions, p, ActionEntity::ChangeRoom(c)).2[c.room.0 as int] == c.variant,
        forall|r: int| 0 <= r < p.2.len() && r != c.room.0 ==> #[trigger] action_effect(actions, p, ActionEntity::ChangeRoom(c)).2[r] == p.2[r],
{
}

/// A room appears in its active variant: the one set by the last room change, else the default.
pub proof fn law_room_shows_active_variant(s: GameState, id: RoomId)
    requires
        s.inv(),
        s.world_of().valid_room(id),
    ensures
        s.room_at(id) == s.world_of().rooms@[id.0 as int]@[variant_index(s.progress().2, id)],
{
}

/// Entering a room moves the player there and changes nothing else.
pub proof fn law_enter_room(s: GameState, id: RoomId, next: GameState)
    requires
        s.entered(id, next),
    ensures
        next.progress().0 == id,
        next.progress().1 == s.progress().1,
        next.progress().2 == s.progress().2,
        next.world_of() == s.world_of(),
{
}

/// The responses offered are the dialogue's responses whose requirements all hold, in order.
pub proof fn law_responses_shown(s: GameState, ids: Seq<ResponseId>)
    requires
        s.inv(),
    ensures
        forall|id: ResponseId| #[trigger] s.response_allowed(id) == all_met(
            s.progress().1,
            s.progress().2,
            s.world_of().responses@[id.0 as int].requires@,
        ),
        s.responses_shown(ids) == ids.filter(
            |id: ResponseId| all_met(s.progress().1, s.progress().2, s.world_of().responses@[id.0 as int].requires@),
        ),
        forall|k: int| 0 <= k < s.responses_shown(ids).len() ==> s.response_allowed(#[trigger] s.responses_shown(ids)[k]),
        forall|k: int| 0 <= k < ids.len() && s.response_allowed(ids[k]) ==> s.responses_shown(ids).contains(#[trigger] ids[k]),
        s.responses_shown(ids).len() <= ids.len(),
{
    broadcast use vstd::seq_lib::group_filter_ensures;
    assert((|r: ResponseId| s.response_allowed(r)) =~= (
        |id: ResponseId| all_met(s.progress().1, s.progress().2, s.world_of().responses@[id.0 as int].requires@)
    ));
}

} // verus!

verus! {

impl GameState {
    /// What the trait views of a game mean for this game.
    pub proof fn lemma_views(&self)
        ensures
            self.lookup_inv() == self.inv(),
            self.update_inv() == self.inv(),
            forall|id: RoomId| #[trigger] self.can_enter(id) == (id.0 < self.room_count()),
            forall|id: ActionId| #[trigger] self.can_act(id) == (id.0 < self.action_count()),
    {
    }

    /// A new game in the world a document describes: every document
    /// that parses gives a game, which starts in the start room with nothing held.
    pub fn from_ini(doc: &crate::config::ini_doc::IniDoc) -> (r: Result<GameState, crate::error::Application>)
        ensures
            match crate::config::parse_spec(doc@) {
                Err(e) => r is Err && r->Err_0@ == e,
                Ok(w) => {
                    &&& r is Ok
                    &&& r->Ok_0.inv()
                    &&& crate::config::world_view(r->Ok_0.world_of()) == w
                    &&& r->Ok_0.progress().0 == r->Ok_0.world_of().title.start_room
                    &&& r->Ok_0.progress().1 == Set::<ItemId>::empty()
                },
            },
    {
        let world = crate::config::parse(doc)?;
        proof {
            crate::config::lemma_world_view_lines_up(world);
            assert(doc@.len() == doc.sections.len());
            crate::config::consistency::law_parsed_world_lines_up(doc@);
        }
        Ok(GameState::new(world))
    }
}

} // verus!

verus! {

impl GameState {
    /// Whether `id` names a character of the game.
    pub fn has_character(&self, id: CharacterId) -> (b: bool)
        ensures
            b == (id.0 < self.character_count()),
    {
        id.0 < self.world.characters.len()
    }

    /// Whether `id` names a dialogue of the game.
    pub fn has_dialogue(&self, id: DialogueId) -> (b: bool)
        ensures
            b == (id.0 < self.dialogue_count()),
    {
        id.0 < self.world.dialogues.len()
    }

    /// Whether `id` names an action of the game.
    pub fn has_action(&self, id: ActionId) -> (b: bool)
        ensures
            b == (id.0 < self.action_count()),
    {
        id.0 < self.world.actions.len()
    }

    /// Whether `id` names a response of the game.
    pub fn has_response(&self, id: ResponseId) -> (b: bool)
        ensures
            b == (id.0 < self.response_count()),
    {
        id.0 < self.world.responses.len()
    }
}

} // verus!
