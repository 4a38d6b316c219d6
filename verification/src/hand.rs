//! The hand/drag controller: picks a shelved food up on a press near it,
//! drags it with the pointer, and routes it to the mouth or the pan on a
//! press near either, emitting the consumption and shelf events.

use vstd::prelude::*;

verus! {

use crate::geom::Vec2i;
use crate::state::{
    EatEvent, Food, FoodState, GameState, ObjectiveZone, Phase, RefreshShelfEvent,
    MOUTH_RADIUS_SQ, PAN_RADIUS_SQ, PICKUP_RADIUS_SQ,
};

/// Whether the pointer at `ptr` can pick `f` up: the food sits on the
/// shelf and within the pickup radius.
pub open spec fn pickable(f: Food, ptr: Vec2i) -> bool {
    f.state == FoodState::Shelved && ptr.spec_dist_sq(f.pos) < PICKUP_RADIUS_SQ
}

/// The index of the first pickable food at or after `i`, or -1.
pub open spec fn first_pick(foods: Seq<Food>, ptr: Vec2i, i: int) -> int
    decreases foods.len() - i,
{
    if i < 0 || i >= foods.len() {
        -1
    } else if pickable(foods[i], ptr) {
        i
    } else {
        first_pick(foods, ptr, i + 1)
    }
}

/// When nothing before `i` is pickable, the first pick from the start is
/// the first pick from `i`.
proof fn lemma_first_pick_skip(foods: Seq<Food>, ptr: Vec2i, i: int)
    requires
        0 <= i <= foods.len(),
        forall|j: int| 0 <= j < i ==> !pickable(#[trigger] foods[j], ptr),
    ensures
        first_pick(foods, ptr, 0) == first_pick(foods, ptr, i),
    decreases i,
{
    if i > 0 {
        lemma_first_pick_skip(foods.subrange(0, i), ptr, i - 1);
        lemma_first_pick_prefix_irrelevant(foods, ptr, 0, i);
    }
}

/// `first_pick` only looks at positions at or after `i`, so it agrees on
/// any extension; helper stated directly by induction instead.
proof fn lemma_first_pick_prefix_irrelevant(foods: Seq<Food>, ptr: Vec2i, i: int, k: int)
    requires
        0 <= i <= k <= foods.len(),
        forall|j: int| i <= j < k ==> !pickable(#[trigger] foods[j], ptr),
    ensures
        first_pick(foods, ptr, i) == first_pick(foods, ptr, k),
    decreases k - i,
{
    if i < k {
        lemma_first_pick_prefix_irrelevant(foods, ptr, i + 1, k);
    }
}

impl GameState {
    /// Finds the index of the food with the given id.
    fn food_index_of(&self, id: u64) -> (r: usize)
        requires
            exists|i: int| 0 <= i < self.foods@.len() && (#[trigger] self.foods@[i]).id == id,
        ensures
            r < self.foods@.len(),
            self.foods@[r as int].id == id,
    {
        let n = self.foods.len();
        let mut i: usize = 0;
        while i < n
            invariant
                n == self.foods@.len(),
                i <= n,
                exists|j: int| 0 <= j < self.foods@.len() && (#[trigger] self.foods@[j]).id == id,
                forall|j: int| 0 <= j < i ==> (#[trigger] self.foods@[j]).id != id,
            decreases n - i,
        {
            if self.foods[i].id == id {
                return i;
            }
            i = i + 1;
        }
        proof {
            assert(false);
        }
        0
    }

    /// While a food is held it follows the pointer.
    pub fn move_hand(&mut self)
        requires
            old(self).wf(),
        ensures
            final(self).wf(),
            match old(self).hand.holding {
                Option::None => *final(self) == *old(self),
                Option::Some(id) => exists|i: int|
                    0 <= i < old(self).foods@.len() && (#[trigger] old(self).foods@[i]).id == id
                        && final(self).foods@ == old(self).foods@.update(
                        i,
                        Food { pos: old(self).pointer, ..old(self).foods@[i] },
                    ),
            },
            *final(self) == (GameState { foods: final(self).foods, ..*old(self) }),
    {
        if let Some(id) = self.hand.holding {
            let i = self.food_index_of(id);
            self.foods[i].pos = self.pointer;
            proof {
                assert(self.foods@ == old(self).foods@.update(
                    i as int,
                    Food { pos: old(self).pointer, ..old(self).foods@[i as int] },
                ));
            }
        }
    }

    /// On leaving the active round, whatever the hand still holds is
    /// discarded and the hand is cleared.
    pub fn clear_hand(&mut self)
        requires
            old(self).wf(),
        ensures
            final(self).hand.holding is None,
            match old(self).hand.holding {
                Option::None => *final(self) == *old(self),
                Option::Some(id) => exists|i: int|
                    0 <= i < old(self).foods@.len() && (#[trigger] old(self).foods@[i]).id == id
                        && final(self).foods@ == old(self).foods@.remove(i),
            },
            *final(self) == (GameState {
                foods: final(self).foods,
                hand: final(self).hand,
                ..*old(self)
            }),
            final(self).wf(),
    {
        if let Some(id) = self.hand.holding {
            let i = self.food_index_of(id);
            self.foods.remove(i);
            self.hand.holding = None;
        }
    }

    /// Handles one press edge. With an empty hand, the first shelved food
    /// within the pickup radius of the pointer is taken into the hand.
    /// While holding: a press within the mouth radius eats the food (it
    /// despawns, its flavor heads for the stomach, and the shelf gets a
    /// keep-the-survivors refresh); otherwise a press within the pan
    /// radius cooks it (its flavor heads for the pan, and the whole shelf
    /// is cycled); anywhere else the food simply stays in the hand.
    pub fn use_hand(&mut self, pressed: bool) -> (r: (Option<EatEvent>, Option<RefreshShelfEvent>))
        requires
            old(self).wf(),
            old(self).phase == Phase::Game,
        ensures
            final(self).wf(),
            *final(self) == (GameState {
                foods: final(self).foods,
                hand: final(self).hand,
                ..*old(self)
            }),
            !pressed ==> *final(self) == *old(self) && r == (
                Option::<EatEvent>::None,
                Option::<RefreshShelfEvent>::None,
            ),
            pressed && old(self).hand.holding is None ==> {
                let k = first_pick(old(self).foods@, old(self).pointer, 0);
                &&& r == (Option::<EatEvent>::None, Option::<RefreshShelfEvent>::None)
                &&& k < 0 ==> *final(self) == *old(self)
                &&& k >= 0 ==> final(self).foods@ == old(self).foods@.update(
                    k,
                    Food { state: FoodState::Held, ..old(self).foods@[k] },
                ) && final(self).hand.holding == Option::Some(old(self).foods@[k].id)
            },
            pressed ==> (old(self).hand.holding matches Option::Some(id) ==> {
                let near_mouth = old(self).pointer.spec_dist_sq(old(self).mouth) < MOUTH_RADIUS_SQ;
                let near_pan = old(self).pointer.spec_dist_sq(old(self).pan.pos) < PAN_RADIUS_SQ;
                &&& (near_mouth || near_pan) ==> exists|i: int|
                    0 <= i < old(self).foods@.len() && (#[trigger] old(self).foods@[i]).id == id
                        && final(self).foods@ == old(self).foods@.remove(i) && r.0
                        == Option::Some(
                        EatEvent {
                            from: old(self).foods@[i].pos,
                            flavor: old(self).foods@[i].info.flavor,
                            to_zone: if near_mouth {
                                ObjectiveZone::Stomach
                            } else {
                                ObjectiveZone::Pan
                            },
                        },
                    ) && r.1 == Option::Some(RefreshShelfEvent { clear: near_mouth })
                        && final(self).hand.holding is None
                &&& !(near_mouth || near_pan) ==> *final(self) == *old(self) && r == (
                    Option::<EatEvent>::None,
                    Option::<RefreshShelfEvent>::None,
                )
            }),
    {
        if !pressed {
            return (None, None);
        }
        if let Some(id) = self.hand.holding {
            let near_mouth = self.pointer.dist_sq(&self.mouth) < MOUTH_RADIUS_SQ;
            let near_pan = self.pointer.dist_sq(&self.pan.pos) < PAN_RADIUS_SQ;
            if near_mouth || near_pan {
                let i = self.food_index_of(id);
                let pos = self.foods[i].pos;
                let flavor = self.foods[i].info.flavor;
                self.foods.remove(i);
                self.hand.holding = None;
                let zone = if near_mouth {
                    ObjectiveZone::Stomach
                } else {
                    ObjectiveZone::Pan
                };
                (
                    Some(EatEvent { from: pos, flavor, to_zone: zone }),
                    Some(RefreshShelfEvent { clear: near_mouth }),
                )
            } else {
                (None, None)
            }
        } else {
            let n = self.foods.len();
            let mut i: usize = 0;
            while i < n
                invariant
                    pressed,
                    old(self).wf(),
                    old(self).hand.holding is None,
                    n == self.foods@.len(),
                    i <= n,
                    *self == *old(self),
                    forall|j: int| 0 <= j < i ==> !pickable(#[trigger] self.foods@[j], self.pointer),
                decreases n - i,
            {
                let near = self.pointer.dist_sq(&self.foods[i].pos) < PICKUP_RADIUS_SQ;
                if near && matches!(self.foods[i].state, FoodState::Shelved) {
                    proof {
                        lemma_first_pick_skip(self.foods@, self.pointer, i as int);
                        assert(first_pick(self.foods@, self.pointer, i as int) == i);
                    }
                    let id = self.foods[i].id;
                    self.foods[i].state = FoodState::Held;
                    self.hand.holding = Some(id);
                    proof {
                        let os = old(self).foods@;
                        let fs = self.foods@;
                        assert(fs == os.update(
                            i as int,
                            Food { state: FoodState::Held, ..os[i as int] },
                        ));
                        assert forall|j: int| 0 <= j < fs.len() && j != i implies fs[j] == os[j]
                        by {}
                        assert(fs[i as int].id == os[i as int].id);
                        assert(self.foods_wf());
                        assert(self.shelves_distinct());
                        assert(self.hand_wf());
                        assert(self.wf());
                    }
                    return (None, None);
                }
                i = i + 1;
            }
            proof {
                lemma_first_pick_skip(self.foods@, self.pointer, n as int);
            }
            (None, None)
        }
    }
}

} // verus!
