//! Shelf stocking: reacting to refresh events by discarding or keeping
//! the shelved foods and restocking every empty slot with a food drawn at
//! random from the catalog.

use vstd::prelude::*;

verus! {

use crate::state::{
    Food, FoodState, GameState, Phase, RefreshShelfEvent, RestockShelfEvent, SHELF_COUNT,
};

/// Whether some food is shelved on slot `s`.
pub open spec fn has_shelved(foods: Seq<Food>, s: int) -> bool {
    exists|i: int|
        0 <= i < foods.len() && (#[trigger] foods[i]).state == FoodState::Shelved && foods[i].shelf
            == s
}

/// Whether slot `s` carries exactly one shelved food.
pub open spec fn exactly_one_shelved(foods: Seq<Food>, s: int) -> bool {
    &&& has_shelved(foods, s)
    &&& forall|i: int, j: int|
        0 <= i < foods.len() && 0 <= j < foods.len() && (#[trigger] foods[i]).state
            == FoodState::Shelved && (#[trigger] foods[j]).state == FoodState::Shelved
            && foods[i].shelf == s && foods[j].shelf == s ==> i == j
}

/// Keeps only the foods that are not shelved.
pub open spec fn non_shelved(f: Food) -> bool {
    f.state != FoodState::Shelved
}

/// Pairwise distinct food ids.
pub open spec fn distinct_ids(foods: Seq<Food>) -> bool {
    forall|i: int, j: int|
        0 <= i < foods.len() && 0 <= j < foods.len() && i != j ==> (#[trigger] foods[i]).id
            != (#[trigger] foods[j]).id
}

/// Every element of a filtered sequence is an element of the sequence it
/// was filtered from.
proof fn lemma_filter_elems(fs: Seq<Food>, pred: spec_fn(Food) -> bool)
    ensures
        forall|i: int|
            0 <= i < fs.filter(pred).len() ==> exists|q: int|
                0 <= q < fs.len() && fs[q] == #[trigger] fs.filter(pred)[i],
    decreases fs.len(),
{
    reveal(Seq::filter);
    if fs.len() > 0 {
        let prefix = fs.drop_last();
        lemma_filter_elems(prefix, pred);
        let pf = prefix.filter(pred);
        assert forall|i: int| 0 <= i < fs.filter(pred).len() implies exists|q: int|
            0 <= q < fs.len() && fs[q] == #[trigger] fs.filter(pred)[i] by {
            if i < pf.len() {
                let q = choose|q: int| 0 <= q < prefix.len() && prefix[q] == pf[i];
                assert(fs[q] == fs.filter(pred)[i]);
            } else {
                assert(fs[fs.len() - 1] == fs.filter(pred)[i]);
            }
        }
    }
}

/// Filtering preserves pairwise distinct ids.
proof fn lemma_filter_ids_distinct(fs: Seq<Food>, pred: spec_fn(Food) -> bool)
    requires
        distinct_ids(fs),
    ensures
        distinct_ids(fs.filter(pred)),
    decreases fs.len(),
{
    reveal(Seq::filter);
    if fs.len() > 0 {
        let prefix = fs.drop_last();
        assert(distinct_ids(prefix)) by {
            assert forall|i: int, j: int|
                0 <= i < prefix.len() && 0 <= j < prefix.len() && i != j implies (
                #[trigger] prefix[i]).id != (#[trigger] prefix[j]).id by {
                assert(prefix[i] == fs[i] && prefix[j] == fs[j]);
            }
        }
        lemma_filter_ids_distinct(prefix, pred);
        lemma_filter_elems(prefix, pred);
        let pf = prefix.filter(pred);
        if pred(fs.last()) {
            assert(fs.filter(pred) == pf.push(fs.last()));
            assert forall|i: int, j: int|
                0 <= i < pf.len() + 1 && 0 <= j < pf.len() + 1 && i != j implies (
                #[trigger] fs.filter(pred)[i]).id != (#[trigger] fs.filter(pred)[j]).id by {
                let hi = if i > j {
                    i
                } else {
                    j
                };
                let lo = if i > j {
                    j
                } else {
                    i
                };
                if hi == pf.len() {
                    let q = choose|q: int| 0 <= q < prefix.len() && prefix[q] == pf[lo];
                    assert(fs[q] == pf[lo]);
                    assert(fs.last() == fs[fs.len() - 1]);
                    assert(fs[q].id != fs[fs.len() - 1].id);
                } else {
                    assert(pf[i].id != pf[j].id);
                }
            }
        }
    }
}

impl GameState {
    /// Scans the foods for a shelved occupant of slot `s`.
    fn has_shelved_food(&self, s: usize) -> (r: bool)
        ensures
            r == has_shelved(self.foods@, s as int),
    {
        let n = self.foods.len();
        let mut i: usize = 0;
        while i < n
            invariant
                n == self.foods@.len(),
                i <= n,
                forall|j: int|
                    0 <= j < i ==> !((#[trigger] self.foods@[j]).state == FoodState::Shelved
                        && self.foods@[j].shelf == s),
            decreases n - i,
        {
            let is_shelved = matches!(self.foods[i].state, FoodState::Shelved);
            if is_shelved && self.foods[i].shelf == s {
                return true;
            }
            i = i + 1;
        }
        false
    }

    /// Handles one shelf refresh event. With `clear` set, every shelved
    /// food stays and exactly the slots without one are queued for
    /// restocking; without it, every shelved food is discarded and every
    /// slot is queued. The queue comes back in ascending slot order.
    pub fn refresh_shelf(&mut self, ev: &RefreshShelfEvent) -> (out: Vec<RestockShelfEvent>)
        requires
            old(self).wf(),
            old(self).shelf_pos@.len() == SHELF_COUNT,
        ensures
            final(self).wf(),
            *final(self) == (GameState { foods: final(self).foods, ..*old(self) }),
            out@.len() <= SHELF_COUNT,
            forall|p: int, q: int|
                0 <= p < q < out@.len() ==> (#[trigger] out@[p]).shelf < (#[trigger] out@[q]).shelf,
            forall|p: int| 0 <= p < out@.len() ==> (#[trigger] out@[p]).shelf < SHELF_COUNT,
            forall|p: int|
                0 <= p < out@.len() ==> !has_shelved(
                    final(self).foods@,
                    (#[trigger] out@[p]).shelf as int,
                ),
            forall|s: int|
                0 <= s < SHELF_COUNT && !has_shelved(final(self).foods@, s) ==> exists|p: int|
                    0 <= p < out@.len() && (#[trigger] out@[p]).shelf == s,
            ev.clear ==> final(self).foods@ == old(self).foods@,
            !ev.clear ==> final(self).foods@ == old(self).foods@.filter(|f: Food| non_shelved(f)),
            final(self).hand.holding == old(self).hand.holding,
    {
        if !ev.clear {
            let mut kept: Vec<Food> = Vec::new();
            let ghost orig = self.foods@;
            proof {
                assert(orig.len() == self.foods.len());
            }
            let mut k: usize = 0;
            while self.foods.len() > 0
                invariant
                    *self == (GameState { foods: self.foods, ..*old(self) }),
                    orig == old(self).foods@,
                    orig.len() <= usize::MAX,
                    orig.len() == k + self.foods@.len(),
                    orig.subrange(k as int, orig.len() as int) == self.foods@,
                    kept@ == orig.subrange(0, k as int).filter(|f: Food| non_shelved(f)),
                    k <= orig.len(),
                decreases self.foods@.len(),
            {
                let f = self.foods.remove(0);
                proof {
                    let pred = |f2: Food| non_shelved(f2);
                    let pre = orig.subrange(0, k as int);
                    let post = orig.subrange(0, k + 1 as int);
                    assert(orig.subrange(k as int, orig.len() as int)[0] == orig[k as int]);
                    assert(f == orig[k as int]);
                    assert(post.drop_last() =~= pre);
                    assert(post.last() == f);
                    reveal(Seq::filter);
                    assert(orig.subrange(k + 1 as int, orig.len() as int) =~= self.foods@);
                }
                if !matches!(f.state, FoodState::Shelved) {
                    kept.push(f);
                    proof {
                        assert(kept@ =~= orig.subrange(0, k + 1 as int).filter(
                            |f2: Food| non_shelved(f2),
                        ));
                    }
                } else {
                    proof {
                        assert(kept@ =~= orig.subrange(0, k + 1 as int).filter(
                            |f2: Food| non_shelved(f2),
                        ));
                    }
                }
                k = k + 1;
            }
            proof {
                assert(orig.subrange(0, orig.len() as int) =~= orig);
            }
            self.foods = kept;
            proof {
                lemma_wf_after_drop_shelved(*old(self), *self);
            }
        }
        let ghost mid = *self;
        let mut out: Vec<RestockShelfEvent> = Vec::new();
        let mut s: usize = 0;
        while s < SHELF_COUNT
            invariant
                *self == mid,
                s <= SHELF_COUNT,
                out@.len() <= s,
                forall|p: int, q: int|
                    0 <= p < q < out@.len() ==> (#[trigger] out@[p]).shelf
                        < (#[trigger] out@[q]).shelf,
                forall|p: int| 0 <= p < out@.len() ==> (#[trigger] out@[p]).shelf < s,
                forall|p: int|
                    0 <= p < out@.len() ==> !has_shelved(
                        self.foods@,
                        (#[trigger] out@[p]).shelf as int,
                    ),
                forall|sh: int|
                    0 <= sh < s && !has_shelved(self.foods@, sh) ==> exists|p: int|
                        0 <= p < out@.len() && (#[trigger] out@[p]).shelf == sh,
            decreases SHELF_COUNT - s,
        {
            let ghost out_pre = out@;
            if !self.has_shelved_food(s) {
                out.push(RestockShelfEvent { shelf: s });
            }
            proof {
                assert forall|sh: int|
                    0 <= sh < s + 1 && !has_shelved(self.foods@, sh) implies exists|p: int|
                    0 <= p < out@.len() && (#[trigger] out@[p]).shelf == sh by {
                    if sh == s {
                        assert(out@[out@.len() - 1].shelf == sh);
                    } else {
                        let p = choose|p: int|
                            0 <= p < out_pre.len() && (#[trigger] out_pre[p]).shelf == sh;
                        assert(out@[p].shelf == sh);
                    }
                }
            }
            s = s + 1;
        }
        out
    }
}

impl GameState {
    /// Restocks each queued shelf slot with a food picked uniformly at
    /// random from the catalog, spawned shelved onto the slot with a
    /// fresh id.
    pub fn restock_shelf(&mut self, evs: &Vec<RestockShelfEvent>)
        requires
            old(self).wf(),
            old(self).phase == Phase::Game,
            old(self).shelf_pos@.len() == SHELF_COUNT,
            evs@.len() <= SHELF_COUNT,
            old(self).next_id + evs@.len() <= u64::MAX,
            forall|p: int, q: int|
                0 <= p < q < evs@.len() ==> (#[trigger] evs@[p]).shelf < (#[trigger] evs@[q]).shelf,
            forall|p: int| 0 <= p < evs@.len() ==> (#[trigger] evs@[p]).shelf < SHELF_COUNT,
            forall|p: int|
                0 <= p < evs@.len() ==> !has_shelved(
                    old(self).foods@,
                    (#[trigger] evs@[p]).shelf as int,
                ),
        ensures
            final(self).wf(),
            *final(self) == (GameState {
                foods: final(self).foods,
                next_id: final(self).next_id,
                ..*old(self)
            }),
            final(self).next_id == old(self).next_id + evs@.len(),
            final(self).foods@.len() == old(self).foods@.len() + evs@.len(),
            final(self).foods@.subrange(0, old(self).foods@.len() as int) == old(self).foods@,
            forall|p: int|
                0 <= p < evs@.len() ==> {
                    let nf = #[trigger] final(self).foods@[old(self).foods@.len() + p];
                    &&& nf.state == FoodState::Shelved
                    &&& nf.shelf == evs@[p].shelf
                    &&& nf.pos == old(self).shelf_pos@[evs@[p].shelf as int]
                    &&& nf.id == old(self).next_id + p
                    &&& exists|k: int|
                        0 <= k < old(self).info.food@.len() && nf.info.sprite@ == (
                        #[trigger] old(self).info.food@[k]).sprite@ && nf.info.flavor
                            == old(self).info.food@[k].flavor
                },
            forall|s: int|
                0 <= s < SHELF_COUNT && has_shelved(old(self).foods@, s) ==> has_shelved(
                    final(self).foods@,
                    s,
                ),
            forall|p: int|
                0 <= p < evs@.len() ==> has_shelved(
                    final(self).foods@,
                    (#[trigger] evs@[p]).shelf as int,
                ),
    {
        let n = evs.len();
        let ghost base = self.foods@.len() as int;
        let mut p: usize = 0;
        while p < n
            invariant
                old(self).wf(),
                old(self).phase == Phase::Game,
                old(self).shelf_pos@.len() == SHELF_COUNT,
                n == evs@.len(),
                n <= SHELF_COUNT,
                old(self).next_id + n <= u64::MAX,
                forall|q: int, q2: int|
                    0 <= q < q2 < evs@.len() ==> (#[trigger] evs@[q]).shelf < (
                    #[trigger] evs@[q2]).shelf,
                forall|q: int| 0 <= q < evs@.len() ==> (#[trigger] evs@[q]).shelf < SHELF_COUNT,
                forall|q: int|
                    0 <= q < evs@.len() ==> !has_shelved(
                        old(self).foods@,
                        (#[trigger] evs@[q]).shelf as int,
                    ),
                p <= n,
                base == old(self).foods@.len(),
                *self == (GameState {
                    foods: self.foods,
                    next_id: self.next_id,
                    ..*old(self)
                }),
                self.next_id == old(self).next_id + p,
                self.foods@.len() == base + p,
                self.foods@.subrange(0, base) == old(self).foods@,
                forall|q: int|
                    0 <= q < p ==> {
                        let nf = #[trigger] self.foods@[base + q];
                        &&& nf.state == FoodState::Shelved
                        &&& nf.shelf == evs@[q].shelf
                        &&& nf.pos == old(self).shelf_pos@[evs@[q].shelf as int]
                        &&& nf.id == old(self).next_id + q
                        &&& nf.info.wf()
                        &&& exists|k: int|
                            0 <= k < old(self).info.food@.len() && nf.info.sprite@ == (
                            #[trigger] old(self).info.food@[k]).sprite@ && nf.info.flavor
                                == old(self).info.food@[k].flavor
                    },
            decreases n - p,
        {
            let e = evs[p];
            let food_len = self.info.food.len();
            let k = crate::rng::rand_range(0, food_len as i64) as usize;
            let fi = self.info.food[k].duplicate();
            proof {
                assert(old(self).info.food@[k as int].wf());
            }
            let nf = Food {
                id: self.next_id,
                state: FoodState::Shelved,
                shelf: e.shelf,
                info: fi,
                pos: self.shelf_pos[e.shelf],
            };
            self.foods.push(nf);
            self.next_id = self.next_id + 1;
            proof {
                assert(self.foods@.subrange(0, base) =~= old(self).foods@);
            }
            p = p + 1;
        }
        proof {
            lemma_wf_after_restock(*old(self), *self, evs@);
            assert forall|s: int|
                0 <= s < SHELF_COUNT && has_shelved(old(self).foods@, s) implies has_shelved(
                self.foods@,
                s,
            ) by {
                let i = choose|i: int|
                    0 <= i < old(self).foods@.len() && (#[trigger] old(self).foods@[i]).state
                        == FoodState::Shelved && old(self).foods@[i].shelf == s;
                assert(self.foods@.subrange(0, base)[i] == self.foods@[i]);
            }
            assert forall|q: int| 0 <= q < evs@.len() implies has_shelved(
                self.foods@,
                (#[trigger] evs@[q]).shelf as int,
            ) by {
                assert(self.foods@[base + q].state == FoodState::Shelved);
                assert(self.foods@[base + q].shelf == evs@[q].shelf);
            }
        }
    }

    /// Runs one full shelf refresh cycle: the refresh decides which slots
    /// need stock and the restock fills them, so that afterwards every
    /// shelf slot carries exactly one shelved food.
    pub fn run_shelf_refresh(&mut self, ev: &RefreshShelfEvent)
        requires
            old(self).wf(),
            old(self).phase == Phase::Game,
            old(self).next_id <= u64::MAX - 8,
        ensures
            final(self).wf(),
            *final(self) == (GameState {
                foods: final(self).foods,
                next_id: final(self).next_id,
                ..*old(self)
            }),
            forall|s: int| 0 <= s < SHELF_COUNT ==> exactly_one_shelved(final(self).foods@, s),
            final(self).hand.holding == old(self).hand.holding,
    {
        let evs = self.refresh_shelf(ev);
        let ghost mid = *self;
        self.restock_shelf(&evs);
        proof {
            assert forall|s: int| 0 <= s < SHELF_COUNT implies exactly_one_shelved(
                self.foods@,
                s,
            ) by {
                if !has_shelved(mid.foods@, s) {
                    let p = choose|p: int| 0 <= p < evs@.len() && (#[trigger] evs@[p]).shelf == s;
                }
            }
        }
    }
}

/// Appending freshly numbered shelved foods onto empty slots preserves
/// the state invariant.
proof fn lemma_wf_after_restock(pre: GameState, post: GameState, evs: Seq<RestockShelfEvent>)
    requires
        pre.wf(),
        pre.phase == Phase::Game,
        pre.shelf_pos@.len() == SHELF_COUNT,
        evs.len() <= SHELF_COUNT,
        pre.next_id + evs.len() <= u64::MAX,
        forall|p: int, q: int|
            0 <= p < q < evs.len() ==> (#[trigger] evs[p]).shelf < (#[trigger] evs[q]).shelf,
        forall|p: int| 0 <= p < evs.len() ==> (#[trigger] evs[p]).shelf < SHELF_COUNT,
        forall|p: int|
            0 <= p < evs.len() ==> !has_shelved(pre.foods@, (#[trigger] evs[p]).shelf as int),
        post == (GameState { foods: post.foods, next_id: post.next_id, ..pre }),
        post.next_id == pre.next_id + evs.len(),
        post.foods@.len() == pre.foods@.len() + evs.len(),
        post.foods@.subrange(0, pre.foods@.len() as int) == pre.foods@,
        forall|p: int|
            0 <= p < evs.len() ==> {
                let nf = #[trigger] post.foods@[pre.foods@.len() + p];
                &&& nf.state == FoodState::Shelved
                &&& nf.shelf == evs[p].shelf
                &&& nf.pos == pre.shelf_pos@[evs[p].shelf as int]
                &&& nf.id == pre.next_id + p
                &&& nf.info.wf()
            },
    ensures
        post.wf(),
{
    let base = pre.foods@.len() as int;
    let fs = post.foods@;
    assert forall|i: int| 0 <= i < base implies fs[i] == pre.foods@[i] by {
        assert(fs.subrange(0, base)[i] == fs[i]);
    }
    assert forall|i: int| base <= i < fs.len() implies (#[trigger] fs[i]).state
        == FoodState::Shelved && fs[i].shelf == evs[i - base].shelf && fs[i].pos
        == pre.shelf_pos@[evs[i - base].shelf as int] && fs[i].id == pre.next_id + (i - base)
        && fs[i].info.wf() by {
        let q = i - base;
        assert(post.foods@[pre.foods@.len() + q].state == FoodState::Shelved
            && post.foods@[pre.foods@.len() + q].shelf == evs[q].shelf && post.foods@[pre.foods@.len()
            + q].pos == pre.shelf_pos@[evs[q].shelf as int] && post.foods@[pre.foods@.len() + q].id
            == pre.next_id + q && post.foods@[pre.foods@.len() + q].info.wf());
    }
    assert forall|i: int| 0 <= i < fs.len() implies (#[trigger] fs[i]).inv(
        post.shelf_pos@.len() as int,
        post.next_id,
    ) by {
        if i < base {
            assert(pre.foods@[i].inv(pre.shelf_pos@.len() as int, pre.next_id));
        } else {
            assert(pre.shelf_pos@[evs[i - base].shelf as int].in_ptr_bounds());
        }
    }
    assert forall|i: int, j: int|
        0 <= i < fs.len() && 0 <= j < fs.len() && i != j implies (#[trigger] fs[i]).id != (
    #[trigger] fs[j]).id by {
        if i < base && j < base {
            assert(pre.foods@[i].id != pre.foods@[j].id);
        } else if i < base {
            assert(pre.foods@[i].inv(pre.shelf_pos@.len() as int, pre.next_id));
        } else if j < base {
            assert(pre.foods@[j].inv(pre.shelf_pos@.len() as int, pre.next_id));
        }
    }
    assert forall|i: int, j: int|
        0 <= i < fs.len() && 0 <= j < fs.len() && i != j && (#[trigger] fs[i]).state
            == FoodState::Shelved && (#[trigger] fs[j]).state == FoodState::Shelved implies
        fs[i].shelf != fs[j].shelf by {
        if i < base && j >= base {
            assert(!has_shelved(pre.foods@, evs[j - base].shelf as int));
            assert(pre.foods@[i] == fs[i]);
        } else if j < base && i >= base {
            assert(!has_shelved(pre.foods@, evs[i - base].shelf as int));
            assert(pre.foods@[j] == fs[j]);
        }
    }
    match post.hand.holding {
        Option::Some(id) => {
            let i = choose|i: int|
                0 <= i < pre.foods@.len() && (#[trigger] pre.foods@[i]).id == id
                    && pre.foods@[i].state == FoodState::Held;
            assert(fs[i].id == id && fs[i].state == FoodState::Held);
        },
        Option::None => {},
    }
}

/// Dropping the shelved foods preserves the state invariant: the kept
/// foods are a sub-sequence of the old ones, and a held food is never
/// shelved, so the hand still points at it.
proof fn lemma_wf_after_drop_shelved(pre: GameState, post: GameState)
    requires
        pre.wf(),
        post == (GameState { foods: post.foods, ..pre }),
        post.foods@ == pre.foods@.filter(|f: Food| non_shelved(f)),
    ensures
        post.wf(),
{
    let pred = |f: Food| non_shelved(f);
    let fs = pre.foods@;
    let ks = post.foods@;
    lemma_filter_elems(fs, pred);
    lemma_filter_ids_distinct(fs, pred);
    fs.lemma_filter_len(pred);
    assert forall|i: int| 0 <= i < ks.len() implies (#[trigger] ks[i]).inv(
        post.shelf_pos@.len() as int,
        post.next_id,
    ) by {
        let q = choose|q: int| 0 <= q < fs.len() && fs[q] == ks[i];
        assert(fs[q].inv(pre.shelf_pos@.len() as int, pre.next_id));
    }
    match pre.hand.holding {
        Option::Some(id) => {
            let i = choose|i: int|
                0 <= i < fs.len() && (#[trigger] fs[i]).id == id && fs[i].state == FoodState::Held;
            assert(pred(fs[i]));
            fs.lemma_filter_contains(pred, i);
            assert(ks.contains(fs[i]));
            let w = choose|w: int| 0 <= w < ks.len() && ks[w] == fs[i];
            assert(ks[w].id == id && ks[w].state == FoodState::Held);
            assert forall|j: int|
                0 <= j < ks.len() && (#[trigger] ks[j]).state == FoodState::Held implies ks[j].id
                == id by {
                let q = choose|q: int| 0 <= q < fs.len() && fs[q] == ks[j];
            }
        },
        Option::None => {
            assert forall|j: int| 0 <= j < ks.len() implies (#[trigger] ks[j]).state
                != FoodState::Held by {
                let q = choose|q: int| 0 <= q < fs.len() && fs[q] == ks[j];
            }
        },
    }
}

} // verus!
