//! The player's inventory: a set of items kept in ascending index order.

use vstd::prelude::*;

use crate::ids::ItemId;

verus! {

pub open spec fn strictly_ascending(s: Seq<ItemId>) -> bool {
    forall|i: int, j: int| 0 <= i < j < s.len() ==> s[i].0 < s[j].0
}

/// A set of items; iterating it gives the items in ascending index order.
#[derive(Debug)]
pub struct ItemSet {
    ids: Vec<ItemId>,
}

impl View for ItemSet {
    type V = Set<ItemId>;

    closed spec fn view(&self) -> Set<ItemId> {
        self.ids@.to_set()
    }
}

impl ItemSet {
    /// The items in ascending index order.
    pub closed spec fn ordered(&self) -> Seq<ItemId> {
        self.ids@
    }

    pub closed spec fn wf(&self) -> bool {
        strictly_ascending(self.ids@)
    }

    pub proof fn lemma_ordered(&self)
        requires
            self.wf(),
        ensures
            strictly_ascending(self.ordered()),
            forall|x: ItemId| #[trigger] self@.contains(x) <==> self.ordered().contains(x),
            self.ordered().no_duplicates(),
            self@.finite(),
            self@.len() == self.ordered().len(),
    {
        assert forall|x: ItemId| #[trigger] self@.contains(x) <==> self.ordered().contains(x) by {
            vstd::seq_lib::lemma_seq_contains_after_push(self.ids@, x, x);
        }
        assert(self.ids@.no_duplicates()) by {
            assert forall|i: int, j: int| 0 <= i < self.ids@.len() && 0 <= j < self.ids@.len() && i != j
                implies self.ids@[i] != self.ids@[j] by {
                if i < j {
                    assert(self.ids@[i].0 < self.ids@[j].0);
                } else {
                    assert(self.ids@[j].0 < self.ids@[i].0);
                }
            }
        }
        self.ids@.unique_seq_to_set();
    }

    pub fn new() -> (s: ItemSet)
        ensures
            s.wf(),
            s@ == Set::<ItemId>::empty(),
            s.ordered() == Seq::<ItemId>::empty(),
    {
        let s = ItemSet { ids: Vec::new() };
        assert(s@ =~= Set::<ItemId>::empty());
        s
    }

    pub fn is_empty(&self) -> (b: bool)
        requires
            self.wf(),
        ensures
            b == (self@ == Set::<ItemId>::empty()),
    {
        proof {
            self.lemma_ordered();
            if self.ids@.len() > 0 {
                assert(self@.contains(self.ids@[0]));
            }
        }
        let b = self.ids.len() == 0;
        if b {
            assert(self@ =~= Set::<ItemId>::empty());
        }
        b
    }

    pub fn len(&self) -> (n: usize)
        requires
            self.wf(),
        ensures
            n == self.ordered().len(),
    {
        self.ids.len()
    }

    /// The `i`-th smallest item.
    pub fn get(&self, i: usize) -> (x: ItemId)
        requires
            self.wf(),
            i < self.ordered().len(),
        ensures
            x == self.ordered()[i as int],
    {
        self.ids[i]
    }

    /// The position of the first element not below `x`.
    fn lower_bound(&self, x: ItemId) -> (p: usize)
        requires
            self.wf(),
        ensures
            p <= self.ids@.len(),
            forall|i: int| 0 <= i < p ==> self.ids@[i].0 < x.0,
            p < self.ids@.len() ==> self.ids@[p as int].0 >= x.0,
    {
        let mut p: usize = 0;
        while p < self.ids.len() && self.ids[p].0 < x.0
            invariant
                p <= self.ids@.len(),
                forall|i: int| 0 <= i < p ==> self.ids@[i].0 < x.0,
            decreases self.ids.len() - p,
        {
            p += 1;
        }
        p
    }

    pub fn contains(&self, x: ItemId) -> (b: bool)
        requires
            self.wf(),
        ensures
            b == self@.contains(x),
    {
        proof {
            self.lemma_ordered();
        }
        let p = self.lower_bound(x);
        let b = p < self.ids.len() && self.ids[p].0 == x.0;
        if !b {
            assert forall|i: int| 0 <= i < self.ids@.len() implies self.ids@[i] != x by {
                if i > p {
                    assert(self.ids@[p as int].0 < self.ids@[i].0);
                }
            }
        }
        b
    }

    pub fn insert(&mut self, x: ItemId)
        requires
            old(self).wf(),
        ensures
            final(self).wf(),
            final(self)@ == old(self)@.insert(x),
    {
        let p = self.lower_bound(x);
        if p < self.ids.len() && self.ids[p].0 == x.0 {
            proof {
                assert(self.ids@[p as int] == x);
                assert(self@ =~= old(self)@.insert(x));
            }
            return;
        }
        let ghost before = self.ids@;
        self.ids.insert(p, x);
        proof {
            assert(self.ids@ == before.take(p as int).push(x) + before.skip(p as int));
            assert forall|i: int, j: int| 0 <= i < j < self.ids@.len() implies self.ids@[i].0 < self.ids@[j].0 by {
                if j < p {
                } else if j == p {
                } else if i < p {
                    assert(self.ids@[j] == before[j - 1]);
                    assert(before[p as int].0 >= x.0);
                    if j - 1 > p {
                        assert(before[p as int].0 < before[j - 1].0);
                    }
                } else if i == p {
                    assert(self.ids@[j] == before[j - 1]);
                    if j - 1 > p {
                        assert(before[p as int].0 < before[j - 1].0);
                    }
                } else {
                    assert(self.ids@[i] == before[i - 1]);
                    assert(self.ids@[j] == before[j - 1]);
                }
            }
            assert forall|y: ItemId| #[trigger] self@.contains(y) <==> old(self)@.insert(x).contains(y) by {
                if self.ids@.contains(y) {
                    let k = choose|k: int| 0 <= k < self.ids@.len() && self.ids@[k] == y;
                    if k < p {
                        assert(before[k] == y);
                    } else if k > p {
                        assert(before[k - 1] == y);
                    }
                }
                if before.contains(y) {
                    let k = choose|k: int| 0 <= k < before.len() && before[k] == y;
                    if k < p {
                        assert(self.ids@[k] == y);
                    } else {
                        assert(self.ids@[k + 1] == y);
                    }
                }
                if y == x {
                    assert(self.ids@[p as int] == x);
                }
            }
            assert(self@ =~= old(self)@.insert(x));
        }
    }

    pub fn remove(&mut self, x: ItemId)
        requires
            old(self).wf(),
        ensures
            final(self).wf(),
            final(self)@ == old(self)@.remove(x),
    {
        proof {
            self.lemma_ordered();
        }
        let p = self.lower_bound(x);
        if p < self.ids.len() && self.ids[p].0 == x.0 {
            let ghost before = self.ids@;
            self.ids.remove(p);
            proof {
                assert(self.ids@ == before.take(p as int) + before.skip(p as int + 1));
                assert forall|i: int, j: int| 0 <= i < j < self.ids@.len() implies self.ids@[i].0 < self.ids@[j].0 by {
                    let a = if i < p { i } else { i + 1 };
                    let b = if j < p { j } else { j + 1 };
                    assert(self.ids@[i] == before[a]);
                    assert(self.ids@[j] == before[b]);
                }
                assert forall|y: ItemId| #[trigger] self@.contains(y) <==> old(self)@.remove(x).contains(y) by {
                    if self.ids@.contains(y) {
                        let k = choose|k: int| 0 <= k < self.ids@.len() && self.ids@[k] == y;
                        let a = if k < p { k } else { k + 1 };
                        assert(before[a] == y);
                        assert(a != p);
                        assert(before[p as int] == x);
                    }
                    if before.contains(y) && y != x {
                        let k = choose|k: int| 0 <= k < before.len() && before[k] == y;
                        assert(k != p);
                        if k < p {
                            assert(self.ids@[k] == y);
                        } else {
                            assert(self.ids@[k - 1] == y);
                        }
                    }
                }
                assert(self@ =~= old(self)@.remove(x));
            }
        } else {
            proof {
                assert forall|i: int| 0 <= i < self.ids@.len() implies self.ids@[i] != x by {
                    if i > p {
                        assert(self.ids@[p as int].0 < self.ids@[i].0);
                    }
                }
                assert(!self@.contains(x));
                assert(self@ =~= old(self)@.remove(x));
            }
        }
    }
}

} // verus!
