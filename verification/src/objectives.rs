//! The flavor/objective engine: consumption events spawn per-taste
//! objective tokens that fly toward their zone, rest there, and during
//! the periodic cooking tick decay (stomach) or multiply (pan).

use vstd::prelude::*;

verus! {

use crate::flavor::{Flavor, tokens_of, token_count};
use crate::geom::{spec_lerp, Vec2i, TIME_LIMIT};
use crate::rng::{rand_range, rand_ratio};
use crate::state::{EatEvent, GameState, Objective, ObjectiveZone, Phase, MAX_OBJECTIVES, OBJ_MS};
use crate::taste::{taste_of, Taste};
use crate::timer::{MatchTimers, Timer};

/// The tastes of the tokens one flavor spawns, taste by taste in index
/// order: `tokens_of` copies of each taste.
pub open spec fn token_tastes_upto(f: Flavor, n: int) -> Seq<Taste>
    decreases n,
{
    if n <= 0 {
        Seq::empty()
    } else {
        token_tastes_upto(f, n - 1) + Seq::new(
            tokens_of(f.value(taste_of(n - 1))) as nat,
            |j: int| taste_of(n - 1),
        )
    }
}

/// The tastes of all the tokens one flavor spawns.
pub open spec fn token_tastes(f: Flavor) -> Seq<Taste> {
    token_tastes_upto(f, 8)
}

/// How many tokens of taste `t` appear in `s`.
pub open spec fn count_taste(s: Seq<Taste>, t: Taste) -> int
    decreases s.len(),
{
    if s.len() == 0 {
        0
    } else {
        count_taste(s.drop_last(), t) + if s.last() == t {
            1int
        } else {
            0int
        }
    }
}

/// Counting distributes over concatenation.
proof fn lemma_count_taste_add(a: Seq<Taste>, b: Seq<Taste>, t: Taste)
    ensures
        count_taste(a + b, t) == count_taste(a, t) + count_taste(b, t),
    decreases b.len(),
{
    if b.len() == 0 {
        assert(a + b =~= a);
    } else {
        assert((a + b).drop_last() =~= a + b.drop_last());
        assert((a + b).last() == b.last());
        lemma_count_taste_add(a, b.drop_last(), t);
    }
}

/// A constant block counts its own taste only.
proof fn lemma_count_taste_const(k: nat, t0: Taste, t: Taste)
    ensures
        count_taste(Seq::new(k, |j: int| t0), t) == if t0 == t {
            k as int
        } else {
            0
        },
    decreases k,
{
    if k > 0 {
        assert(Seq::new(k, |j: int| t0).drop_last() =~= Seq::new((k - 1) as nat, |j: int| t0));
        lemma_count_taste_const((k - 1) as nat, t0, t);
    }
}

/// Counting the partial token list: tastes with index below `n` appear
/// `tokens_of` many times, later tastes not at all.
proof fn lemma_token_tastes_upto_count(f: Flavor, n: int, t: Taste)
    requires
        0 <= n <= 8,
    ensures
        count_taste(token_tastes_upto(f, n), t) == if t.index() < n {
            tokens_of(f.value(t))
        } else {
            0
        },
    decreases n,
{
    if n > 0 {
        lemma_token_tastes_upto_count(f, n - 1, t);
        lemma_count_taste_add(
            token_tastes_upto(f, n - 1),
            Seq::new(tokens_of(f.value(taste_of(n - 1))) as nat, |j: int| taste_of(n - 1)),
            t,
        );
        lemma_count_taste_const(tokens_of(f.value(taste_of(n - 1))) as nat, taste_of(n - 1), t);
    }
}

/// A flavor spawns exactly `tokens_of` its intensity many tokens of each
/// taste: the integer part for positive intensities, none otherwise.
pub proof fn lemma_token_tastes_count(f: Flavor, t: Taste)
    ensures
        count_taste(token_tastes(f), t) == tokens_of(f.value(t)),
{
    lemma_token_tastes_upto_count(f, 8, t);
}

/// Partial token lists only grow with the taste index.
proof fn lemma_token_tastes_upto_len_monotone(f: Flavor, a: int, b: int)
    requires
        a <= b,
    ensures
        token_tastes_upto(f, a).len() <= token_tastes_upto(f, b).len(),
    decreases b - a,
{
    if a < b {
        lemma_token_tastes_upto_len_monotone(f, a, b - 1);
    }
}

/// Inside block `i`, the token list holds taste `i`.
proof fn lemma_token_tastes_index(f: Flavor, k: int, i: int, m: int)
    requires
        0 <= i < k <= 8,
        token_tastes_upto(f, i).len() <= m < token_tastes_upto(f, i + 1).len(),
    ensures
        m < token_tastes_upto(f, k).len(),
        token_tastes_upto(f, k)[m] == taste_of(i),
    decreases k,
{
    if k == i + 1 {
        let left = token_tastes_upto(f, i);
        let right = Seq::new(tokens_of(f.value(taste_of(i))) as nat, |j: int| taste_of(i));
        assert(token_tastes_upto(f, k) == left + right);
        assert((left + right)[m] == right[m - left.len()]);
    } else {
        lemma_token_tastes_index(f, k - 1, i, m);
        let left = token_tastes_upto(f, k - 1);
        let right = Seq::new(tokens_of(f.value(taste_of(k - 1))) as nat, |j: int| taste_of(k - 1));
        assert(token_tastes_upto(f, k) == left + right);
        assert((left + right)[m] == left[m]);
    }
}

impl GameState {
    /// Spawns the objective tokens of one consumption event: for each
    /// taste in index order, `tokens_of` the flavor's intensity tokens,
    /// each starting at the event origin with a small random jitter on
    /// its flight target around the destination zone's anchor, on a fresh
    /// flight timer. Spawning stops early only at the objective cap.
    pub fn spawn_objectives(&mut self, ev: &EatEvent)
        requires
            old(self).wf(),
            old(self).in_round(),
            ev.from.in_ptr_bounds(),
            ev.flavor.wf(),
        ensures
            final(self).wf(),
            *final(self) == (GameState { objectives: final(self).objectives, ..*old(self) }),
            final(self).objectives@.subrange(0, old(self).objectives@.len() as int) == old(self).objectives@,
            final(self).objectives@.len() <= MAX_OBJECTIVES,
            final(self).objectives@.len() - old(self).objectives@.len() <= token_tastes(
                ev.flavor,
            ).len(),
            final(self).objectives@.len() == old(self).objectives@.len() + token_tastes(
                ev.flavor,
            ).len() || final(self).objectives@.len() == MAX_OBJECTIVES,
            old(self).objectives@.len() + token_tastes(ev.flavor).len() <= MAX_OBJECTIVES ==> final(self).objectives@.len() == old(self).objectives@.len() + token_tastes(ev.flavor).len(),
            forall|q: int|
                old(self).objectives@.len() <= q < final(self).objectives@.len() ==> {
                    let o = #[trigger] final(self).objectives@[q];
                    &&& o.taste == token_tastes(ev.flavor)[q - old(self).objectives@.len()]
                    &&& o.zone == ev.to_zone
                    &&& o.timer == (Timer {
                        duration_ms: OBJ_MS,
                        elapsed_ms: 0,
                        repeating: false,
                        just_finished: false,
                    })
                    &&& o.pos == ev.from
                    &&& ev.from.x - 100 <= o.from.x < ev.from.x + 100
                    &&& ev.from.y - 100 <= o.from.y < ev.from.y + 100
                    &&& (ev.to_zone == ObjectiveZone::Stomach ==> old(self).stomach_anchor.x - 20 <= o.goto.x < old(self).stomach_anchor.x + 20 && old(self).stomach_anchor.y - 10 <= o.goto.y < old(self).stomach_anchor.y + 10)
                    &&& (ev.to_zone == ObjectiveZone::Pan ==> old(self).pan.pos.x - 150 <= o.goto.x
                        < old(self).pan.pos.x + 150 && old(self).pan.pos.y - 60 <= o.goto.y < old(self).pan.pos.y + 80)
                },
    {
        let ghost f = ev.flavor;
        let ghost tt = token_tastes(f);
        let ghost base = self.objectives@.len() as int;
        let anchor = if matches!(ev.to_zone, ObjectiveZone::Stomach) {
            self.stomach_anchor
        } else {
            self.pan.pos
        };
        let mut i: u32 = 0;
        while i < 8
            invariant
                old(self).wf(),
                ev.from.in_ptr_bounds(),
                ev.flavor.wf(),
                f == ev.flavor,
                tt == token_tastes(f),
                base == old(self).objectives@.len(),
                anchor == if ev.to_zone == ObjectiveZone::Stomach {
                    old(self).stomach_anchor
                } else {
                    old(self).pan.pos
                },
                anchor.in_ptr_bounds(),
                i <= 8,
                *self == (GameState { objectives: self.objectives, ..*old(self) }),
                self.objectives@.len() <= MAX_OBJECTIVES,
                self.objectives@.subrange(0, base) == old(self).objectives@,
                base <= self.objectives@.len(),
                self.objectives@.len() - base == token_tastes_upto(f, i as int).len()
                    || self.objectives@.len() == MAX_OBJECTIVES,
                self.objectives@.len() - base <= token_tastes_upto(f, i as int).len(),
                forall|q: int|
                    base <= q < self.objectives@.len() ==> {
                        let o = #[trigger] self.objectives@[q];
                        &&& q - base < tt.len() && o.taste == tt[q - base]
                        &&& o.zone == ev.to_zone
                        &&& o.timer == (Timer {
                            duration_ms: OBJ_MS,
                            elapsed_ms: 0,
                            repeating: false,
                            just_finished: false,
                        })
                        &&& o.pos == ev.from
                        &&& ev.from.x - 100 <= o.from.x < ev.from.x + 100
                        &&& ev.from.y - 100 <= o.from.y < ev.from.y + 100
                        &&& (ev.to_zone == ObjectiveZone::Stomach ==> old(self).stomach_anchor.x - 20 <= o.goto.x < old(self).stomach_anchor.x + 20
                            && old(self).stomach_anchor.y - 10 <= o.goto.y < old(self).stomach_anchor.y + 10)
                        &&& (ev.to_zone == ObjectiveZone::Pan ==> old(self).pan.pos.x - 150
                            <= o.goto.x < old(self).pan.pos.x + 150 && old(self).pan.pos.y - 60
                            <= o.goto.y < old(self).pan.pos.y + 80)
                        &&& o.inv()
                    },
            decreases 8 - i,
        {
            let t = crate::taste::Taste::from_u32(i);
            let v = ev.flavor.get(t);
            let cnt = token_count(v);
            proof {
                lemma_token_tastes_upto_len_monotone(f, i as int, i + 1 as int);
                lemma_token_tastes_upto_len_monotone(f, i + 1 as int, 8);
                assert(token_tastes_upto(f, i + 1 as int).len() == token_tastes_upto(
                    f,
                    i as int,
                ).len() + cnt);
            }
            let mut j: u64 = 0;
            while j < cnt && self.objectives.len() < MAX_OBJECTIVES
                invariant
                    old(self).wf(),
                    ev.from.in_ptr_bounds(),
                    ev.flavor.wf(),
                    f == ev.flavor,
                    tt == token_tastes(f),
                    base == old(self).objectives@.len(),
                    anchor == if ev.to_zone == ObjectiveZone::Stomach {
                        old(self).stomach_anchor
                    } else {
                        old(self).pan.pos
                    },
                    anchor.in_ptr_bounds(),
                    i < 8,
                    t == taste_of(i as int),
                    cnt == tokens_of(f.value(t)),
                    token_tastes_upto(f, i + 1 as int).len() == token_tastes_upto(
                        f,
                        i as int,
                    ).len() + cnt,
                    token_tastes_upto(f, i + 1 as int).len() <= tt.len(),
                    j <= cnt,
                    *self == (GameState { objectives: self.objectives, ..*old(self) }),
                    self.objectives@.len() <= MAX_OBJECTIVES,
                    self.objectives@.subrange(0, base) == old(self).objectives@,
                    base <= self.objectives@.len(),
                    self.objectives@.len() - base == token_tastes_upto(f, i as int).len() + j
                        || self.objectives@.len() == MAX_OBJECTIVES,
                    self.objectives@.len() - base <= token_tastes_upto(f, i as int).len() + j,
                    forall|q: int|
                        base <= q < self.objectives@.len() ==> {
                            let o = #[trigger] self.objectives@[q];
                            &&& q - base < tt.len() && o.taste == tt[q - base]
                            &&& o.zone == ev.to_zone
                            &&& o.timer == (Timer {
                                duration_ms: OBJ_MS,
                                elapsed_ms: 0,
                                repeating: false,
                                just_finished: false,
                            })
                            &&& o.pos == ev.from
                            &&& ev.from.x - 100 <= o.from.x < ev.from.x + 100
                            &&& ev.from.y - 100 <= o.from.y < ev.from.y + 100
                            &&& (ev.to_zone == ObjectiveZone::Stomach ==> old(self).stomach_anchor.x - 20 <= o.goto.x < old(self).stomach_anchor.x + 20
                                && old(self).stomach_anchor.y - 10 <= o.goto.y < old(self).stomach_anchor.y + 10)
                            &&& (ev.to_zone == ObjectiveZone::Pan ==> old(self).pan.pos.x - 150
                                <= o.goto.x < old(self).pan.pos.x + 150 && old(self).pan.pos.y - 60 <= o.goto.y < old(self).pan.pos.y + 80)
                            &&& o.inv()
                        },
                decreases cnt - j,
            {
                let fx = rand_range(-100, 100);
                let fy = rand_range(-100, 100);
                let from = ev.from.offset(fx, fy);
                let goto = if matches!(ev.to_zone, ObjectiveZone::Stomach) {
                    let gx = rand_range(-20, 20);
                    let gy = rand_range(-10, 10);
                    anchor.offset(gx, gy)
                } else {
                    let gx = rand_range(-150, 150);
                    let gy = rand_range(-60, 80);
                    anchor.offset(gx, gy)
                };
                let ghost m = self.objectives@.len() - base;
                proof {
                    if m != token_tastes_upto(f, i as int).len() + j {
                        assert(self.objectives@.len() == MAX_OBJECTIVES);
                        assert(false);
                    }
                    lemma_token_tastes_index(f, 8, i as int, m);
                }
                let obj = Objective {
                    taste: t,
                    zone: ev.to_zone,
                    from,
                    goto,
                    pos: ev.from,
                    timer: Timer::new(OBJ_MS, false),
                };
                self.objectives.push(obj);
                proof {
                    assert(self.objectives@.subrange(0, base) =~= old(self).objectives@);
                }
                j = j + 1;
            }
            proof {
                if j < cnt {
                    assert(self.objectives@.len() == MAX_OBJECTIVES);
                }
                lemma_token_tastes_upto_len_monotone(f, 0, i as int);
            }
            i = i + 1;
        }
        proof {
            assert(token_tastes_upto(f, 8) == tt);
            assert forall|i2: int| 0 <= i2 < base implies self.objectives@[i2] == old(self).objectives@[i2] by {
                assert(self.objectives@.subrange(0, base)[i2] == self.objectives@[i2]);
            }
        }
    }
}

/// An objective one movement step later: while its flight timer runs the
/// token advances along the interpolation from `from` to `goto`; once
/// the timer has finished it rests exactly on `goto`.
pub open spec fn spec_move_obj(o: Objective, delta: u64) -> Objective
    recommends
        o.inv(),
        delta <= TIME_LIMIT,
{
    if !o.timer.spec_finished() {
        let t2 = o.timer.spec_tick(delta);
        Objective {
            timer: t2,
            pos: spec_lerp(o.from, o.goto, t2.elapsed_ms as int, t2.duration_ms as int),
            ..o
        }
    } else {
        Objective { pos: o.goto, ..o }
    }
}

/// How many of the first `n` objectives fly to zone `z`.
pub open spec fn count_zone_upto(objs: Seq<Objective>, z: ObjectiveZone, n: int) -> int
    decreases n,
{
    if n <= 0 {
        0
    } else {
        count_zone_upto(objs, z, n - 1) + if objs[n - 1].zone == z {
            1int
        } else {
            0int
        }
    }
}

/// How many objectives fly to zone `z`.
pub open spec fn count_zone(objs: Seq<Objective>, z: ObjectiveZone) -> int {
    count_zone_upto(objs, z, objs.len() as int)
}

/// How many of the first `n` objectives are pan-zone tokens of taste `t`.
pub open spec fn count_pan_taste_upto(objs: Seq<Objective>, t: Taste, n: int) -> int
    decreases n,
{
    if n <= 0 {
        0
    } else {
        count_pan_taste_upto(objs, t, n - 1) + if objs[n - 1].zone == ObjectiveZone::Pan && objs[n
            - 1].taste == t {
            1int
        } else {
            0int
        }
    }
}

/// How many pan-zone tokens of taste `t` are live.
pub open spec fn count_pan_taste(objs: Seq<Objective>, t: Taste) -> int {
    count_pan_taste_upto(objs, t, objs.len() as int)
}


/// Zone counts only look at the first `n` elements.
pub proof fn lemma_count_zone_agree(s1: Seq<Objective>, s2: Seq<Objective>, z: ObjectiveZone, n: int)
    requires
        n <= s1.len(),
        n <= s2.len(),
        forall|i: int| 0 <= i < n ==> s1[i] == s2[i],
    ensures
        count_zone_upto(s1, z, n) == count_zone_upto(s2, z, n),
    decreases n,
{
    if n > 0 {
        lemma_count_zone_agree(s1, s2, z, n - 1);
    }
}

/// Appending one objective adds one to its zone's count.
pub proof fn lemma_count_zone_push(s: Seq<Objective>, x: Objective, z: ObjectiveZone)
    ensures
        count_zone(s.push(x), z) == count_zone(s, z) + if x.zone == z {
            1int
        } else {
            0int
        },
{
    lemma_count_zone_agree(s.push(x), s, z, s.len() as int);
}

impl GameState {
    /// Moves every objective token one step: running flight timers
    /// advance and the token is placed on the interpolation between its
    /// origin and target; finished tokens rest on their target.
    pub fn move_objs(&mut self, delta: u64)
        requires
            old(self).wf(),
            delta <= TIME_LIMIT,
        ensures
            final(self).wf(),
            *final(self) == (GameState { objectives: final(self).objectives, ..*old(self) }),
            final(self).objectives@.len() == old(self).objectives@.len(),
            forall|i: int|
                0 <= i < old(self).objectives@.len() ==> final(self).objectives@[i]
                    == spec_move_obj(#[trigger] old(self).objectives@[i], delta),
    {
        let n = self.objectives.len();
        let mut i: usize = 0;
        while i < n
            invariant
                old(self).wf(),
                delta <= TIME_LIMIT,
                n == self.objectives@.len(),
                n == old(self).objectives@.len(),
                i <= n,
                *self == (GameState { objectives: self.objectives, ..*old(self) }),
                forall|k: int|
                    0 <= k < i ==> self.objectives@[k] == spec_move_obj(
                        #[trigger] old(self).objectives@[k],
                        delta,
                    ),
                forall|k: int| 0 <= k < i ==> (#[trigger] self.objectives@[k]).inv(),
                forall|k: int| i <= k < n ==> self.objectives@[k] == old(self).objectives@[k],
            decreases n - i,
        {
            let o = self.objectives[i];
            proof {
                assert(old(self).objectives@[i as int].inv());
            }
            if !o.timer.finished() {
                let mut tm = o.timer;
                tm.tick(delta);
                let pos = crate::geom::lerp(&o.from, &o.goto, tm.elapsed_ms, tm.duration_ms);
                self.objectives[i] = Objective { timer: tm, pos, ..o };
            } else {
                self.objectives[i] = Objective { pos: o.goto, ..o };
            }
            i = i + 1;
        }
    }

    /// Rewinds the flight timer of every pan-zone objective, so that the
    /// next smash animation starts from freshly moving tokens.
    pub fn ready_anim_objs(&mut self)
        requires
            old(self).wf(),
        ensures
            final(self).wf(),
            *final(self) == (GameState { objectives: final(self).objectives, ..*old(self) }),
            final(self).objectives@.len() == old(self).objectives@.len(),
            forall|i: int|
                0 <= i < old(self).objectives@.len() ==> final(self).objectives@[i] == {
                    let o = #[trigger] old(self).objectives@[i];
                    if o.zone == ObjectiveZone::Pan {
                        Objective {
                            timer: Timer { elapsed_ms: 0, just_finished: false, ..o.timer },
                            ..o
                        }
                    } else {
                        o
                    }
                },
    {
        let n = self.objectives.len();
        let mut i: usize = 0;
        while i < n
            invariant
                old(self).wf(),
                n == self.objectives@.len(),
                n == old(self).objectives@.len(),
                i <= n,
                *self == (GameState { objectives: self.objectives, ..*old(self) }),
                forall|k: int|
                    0 <= k < i ==> #[trigger] self.objectives@[k] == {
                        let o = old(self).objectives@[k];
                        if o.zone == ObjectiveZone::Pan {
                            Objective {
                                timer: Timer { elapsed_ms: 0, just_finished: false, ..o.timer },
                                ..o
                            }
                        } else {
                            o
                        }
                    } && self.objectives@[k].inv(),
                forall|k: int| i <= k < n ==> self.objectives@[k] == old(self).objectives@[k],
            decreases n - i,
        {
            proof {
                assert(old(self).objectives@[i as int].inv());
            }
            if matches!(self.objectives[i].zone, ObjectiveZone::Pan) {
                self.objectives[i].timer.reset();
            }
            i = i + 1;
        }
    }

    /// Whether objective `i` of `objs` shares its taste with another
    /// pan-zone objective.
    fn twin_in(objs: &Vec<Objective>, i: usize) -> (r: bool)
        requires
            i < objs@.len(),
        ensures
            r == exists|j: int|
                0 <= j < objs@.len() && j != i && (#[trigger] objs@[j]).zone == ObjectiveZone::Pan
                    && objs@[j].taste == objs@[i as int].taste,
    {
        let n = objs.len();
        let t = objs[i].taste;
        let mut j: usize = 0;
        while j < n
            invariant
                n == objs@.len(),
                i < n,
                j <= n,
                t == objs@[i as int].taste,
                forall|k: int|
                    0 <= k < j ==> !(k != i && (#[trigger] objs@[k]).zone == ObjectiveZone::Pan
                        && objs@[k].taste == t),
            decreases n - j,
        {
            if j != i && matches!(objs[j].zone, ObjectiveZone::Pan) {
                let tj = objs[j].taste;
                if tj == t {
                    return true;
                }
            }
            j = j + 1;
        }
        false
    }

    /// One cooking pass over the objective tokens: each stomach token
    /// independently despawns with a small chance and otherwise survives
    /// unchanged; each pan token that shares its taste with another pan
    /// token has a small chance of re-animating and spawning one fresh
    /// duplicate of its taste, up to the objective cap. `cook_rel` pins
    /// what holds of every random outcome: stomach tokens form an
    /// unchanged sub-sequence of the old ones, pan tokens persist with
    /// at most a rewound flight timer, per-taste pan counts never drop
    /// and at most double, twin-less tastes are never duplicated, and
    /// every added token is a well-formed duplicate of a pan source.
    pub fn cook_pass(objs: &Vec<Objective>, pan_pos: Vec2i) -> (result: Vec<Objective>)
        requires
            forall|i: int| 0 <= i < objs@.len() ==> (#[trigger] objs@[i]).inv(),
            objs@.len() <= MAX_OBJECTIVES,
            pan_pos.in_ptr_bounds(),
        ensures
            result@.len() <= MAX_OBJECTIVES,
            forall|j: int| 0 <= j < result@.len() ==> (#[trigger] result@[j]).inv(),
            cook_rel(objs@, result@, objs@.len() as int, pan_pos),
    {
        let n = objs.len();
        let mut result: Vec<Objective> = Vec::new();
        proof {
            assert(objs@.subrange(0, 0) =~= Seq::<Objective>::empty());
            reveal(Seq::filter);
        }
        let mut i: usize = 0;
        while i < n
            invariant
                forall|q: int| 0 <= q < objs@.len() ==> (#[trigger] objs@[q]).inv(),
                pan_pos.in_ptr_bounds(),
                n == objs@.len(),
                n <= MAX_OBJECTIVES,
                i <= n,
                result@.len() + (n - i) <= MAX_OBJECTIVES,
                forall|j: int| 0 <= j < result@.len() ==> (#[trigger] result@[j]).inv(),
                cook_rel(objs@, result@, i as int, pan_pos),
            decreases n - i,
        {
            let o = objs[i];
            let ghost result_pre = result@;
            if matches!(o.zone, ObjectiveZone::Stomach) {
                if !rand_ratio(1, 25) {
                    result.push(o);
                    proof {
                        lemma_cook_step_keep(objs@, result_pre, i as int, pan_pos);
                    }
                } else {
                    proof {
                        lemma_cook_step_drop(objs@, result_pre, i as int, pan_pos);
                    }
                }
            } else {
                let twin = Self::twin_in(objs, i);
                let room = result.len() + (n - i) < MAX_OBJECTIVES;
                if twin && room && rand_ratio(1, 25) {
                    let mut renewed = o;
                    renewed.timer.reset();
                    result.push(renewed);
                    let gx = rand_range(-150, 150);
                    let gy = rand_range(-60, 80);
                    let goto = pan_pos.offset(gx, gy);
                    let px = rand_range(-150, 150);
                    let py = rand_range(-60, 80);
                    let pos = pan_pos.offset(px, py);
                    let dup = Objective {
                        taste: o.taste,
                        zone: ObjectiveZone::Pan,
                        from: o.pos,
                        goto,
                        pos,
                        timer: Timer::new(OBJ_MS, false),
                    };
                    result.push(dup);
                    proof {
                        let t = objs@[i as int].taste;
                        let w = choose|j: int|
                            0 <= j < objs@.len() && j != i && (#[trigger] objs@[j]).zone
                                == ObjectiveZone::Pan && objs@[j].taste == t;
                        if w < i {
                            lemma_two_pan_same_taste(objs@, t, w, i as int);
                        } else {
                            lemma_two_pan_same_taste(objs@, t, i as int, w);
                        }
                        lemma_cook_step_dup(objs@, result_pre, i as int, pan_pos, renewed, dup);
                    }
                } else {
                    result.push(o);
                    proof {
                        lemma_cook_step_keep(objs@, result_pre, i as int, pan_pos);
                    }
                }
            }
            i = i + 1;
        }
        proof {
            assert(objs@.subrange(0, n as int) =~= objs@);
        }
        result
    }

    /// Runs the periodic cooking tick: advances the repeating cook timer
    /// and, on the tick it wraps, runs one cooking pass over the tokens
    /// (see `cook_rel` for everything that pass guarantees).
    pub fn cooking(&mut self, delta: u64)
        requires
            old(self).wf(),
            old(self).phase == Phase::Game,
            delta <= TIME_LIMIT,
        ensures
            final(self).wf(),
            *final(self) == (GameState {
                objectives: final(self).objectives,
                timers: final(self).timers,
                ..*old(self)
            }),
            final(self).timers == (MatchTimers {
                cook: old(self).timers.cook.spec_tick(delta),
                ..old(self).timers
            }),
            !old(self).timers.cook.spec_tick(delta).spec_finished() ==> final(self).objectives@
                == old(self).objectives@,
            old(self).timers.cook.spec_tick(delta).spec_finished() ==> cook_rel(
                old(self).objectives@,
                final(self).objectives@,
                old(self).objectives@.len() as int,
                old(self).pan.pos,
            ),
            count_zone(final(self).objectives@, ObjectiveZone::Stomach) <= count_zone(
                old(self).objectives@,
                ObjectiveZone::Stomach,
            ),
            forall|t: Taste|
                count_pan_taste(old(self).objectives@, t) <= #[trigger] count_pan_taste(
                    final(self).objectives@,
                    t,
                ),
    {
        self.timers.cook.tick(delta);
        if !self.timers.cook.finished() {
            return ;
        }
        proof {
            assert forall|q: int| 0 <= q < self.objectives@.len() implies (
            #[trigger] self.objectives@[q]).inv() by {
                assert(old(self).objectives@[q].inv());
            }
        }
        let result = Self::cook_pass(&self.objectives, self.pan.pos);
        self.objectives = result;
        proof {
            assert(count_zone_upto(
                old(self).objectives@,
                ObjectiveZone::Stomach,
                old(self).objectives@.len() as int,
            ) == count_zone(old(self).objectives@, ObjectiveZone::Stomach));
            assert forall|t: Taste|
                count_pan_taste(old(self).objectives@, t) <= #[trigger] count_pan_taste(
                    self.objectives@,
                    t,
                ) by {}
        }
    }
}

/// Two token sequences that agree pointwise on taste and zone have the
/// same zone counts and per-taste pan counts.
pub proof fn lemma_counts_preserved(s1: Seq<Objective>, s2: Seq<Objective>)
    requires
        s1.len() == s2.len(),
        forall|i: int|
            0 <= i < s1.len() ==> (#[trigger] s1[i]).taste == (#[trigger] s2[i]).taste
                && s1[i].zone == s2[i].zone,
    ensures
        count_zone(s1, ObjectiveZone::Stomach) == count_zone(s2, ObjectiveZone::Stomach),
        count_zone(s1, ObjectiveZone::Pan) == count_zone(s2, ObjectiveZone::Pan),
        forall|t: Taste| #[trigger] count_pan_taste(s1, t) == count_pan_taste(s2, t),
{
    lemma_counts_preserved_upto(s1, s2, s1.len() as int);
}

proof fn lemma_counts_preserved_upto(s1: Seq<Objective>, s2: Seq<Objective>, n: int)
    requires
        n <= s1.len(),
        n <= s2.len(),
        forall|i: int|
            0 <= i < s1.len() ==> (#[trigger] s1[i]).taste == (#[trigger] s2[i]).taste
                && s1[i].zone == s2[i].zone,
    ensures
        count_zone_upto(s1, ObjectiveZone::Stomach, n) == count_zone_upto(
            s2,
            ObjectiveZone::Stomach,
            n,
        ),
        count_zone_upto(s1, ObjectiveZone::Pan, n) == count_zone_upto(s2, ObjectiveZone::Pan, n),
        forall|t: Taste| #[trigger] count_pan_taste_upto(s1, t, n) == count_pan_taste_upto(
            s2,
            t,
            n,
        ),
    decreases n,
{
    if n > 0 {
        lemma_counts_preserved_upto(s1, s2, n - 1);
        assert forall|t: Taste| #[trigger] count_pan_taste_upto(s1, t, n) == count_pan_taste_upto(
            s2,
            t,
            n,
        ) by {
            assert(count_pan_taste_upto(s1, t, n - 1) == count_pan_taste_upto(s2, t, n - 1));
        }
    }
}

/// A sequence without tokens of a zone counts zero for it.
pub proof fn lemma_count_zone_absent(s: Seq<Objective>, z: ObjectiveZone)
    requires
        forall|i: int| 0 <= i < s.len() ==> (#[trigger] s[i]).zone != z,
    ensures
        count_zone(s, z) == 0,
{
    lemma_count_zone_absent_upto(s, z, s.len() as int);
}

proof fn lemma_count_zone_absent_upto(s: Seq<Objective>, z: ObjectiveZone, n: int)
    requires
        n <= s.len(),
        forall|i: int| 0 <= i < s.len() ==> (#[trigger] s[i]).zone != z,
    ensures
        count_zone_upto(s, z, n) == 0,
    decreases n,
{
    if n > 0 {
        lemma_count_zone_absent_upto(s, z, n - 1);
    }
}

/// Whether `b` is `a` with only its flight timer rewound to the start.
pub open spec fn timer_rewound(a: Objective, b: Objective) -> bool {
    b == (Objective { timer: Timer { elapsed_ms: 0, just_finished: false, ..a.timer }, ..a })
}

/// Whether `d` is a fresh duplicate of the pan token `src`: the same
/// taste in the pan zone, on a fresh flight timer, departing from the
/// source's current position toward a point inside the pan jitter box.
pub open spec fn is_pan_duplicate(d: Objective, src: Objective, pan_pos: Vec2i) -> bool {
    &&& src.zone == ObjectiveZone::Pan
    &&& d.taste == src.taste
    &&& d.zone == ObjectiveZone::Pan
    &&& d.timer == (Timer {
        duration_ms: OBJ_MS,
        elapsed_ms: 0,
        repeating: false,
        just_finished: false,
    })
    &&& d.from == src.pos
    &&& pan_pos.x - 150 <= d.goto.x < pan_pos.x + 150
    &&& pan_pos.y - 60 <= d.goto.y < pan_pos.y + 80
    &&& pan_pos.x - 150 <= d.pos.x < pan_pos.x + 150
    &&& pan_pos.y - 60 <= d.pos.y < pan_pos.y + 80
}

/// The stomach-zone tokens of a sequence, in order.
pub open spec fn stomach_part(s: Seq<Objective>) -> Seq<Objective> {
    s.filter(|o: Objective| o.zone == ObjectiveZone::Stomach)
}

/// Whether `a` is `b` with some elements dropped, order kept.
pub open spec fn is_subseq_of(a: Seq<Objective>, b: Seq<Objective>) -> bool
    decreases a.len() + b.len(),
{
    if a.len() == 0 {
        true
    } else if b.len() == 0 {
        false
    } else {
        (a.last() == b.last() && is_subseq_of(a.drop_last(), b.drop_last())) || is_subseq_of(
            a,
            b.drop_last(),
        )
    }
}

/// A sub-sequence stays one when the right side grows.
proof fn lemma_subseq_skip(a: Seq<Objective>, b: Seq<Objective>, x: Objective)
    requires
        is_subseq_of(a, b),
    ensures
        is_subseq_of(a, b.push(x)),
{
    assert(b.push(x).drop_last() =~= b);
    if a.len() == 0 {
    } else {
        assert(is_subseq_of(a, b.push(x).drop_last()));
    }
}

/// Appending the same element to both sides keeps a sub-sequence.
proof fn lemma_subseq_match(a: Seq<Objective>, b: Seq<Objective>, x: Objective)
    requires
        is_subseq_of(a, b),
    ensures
        is_subseq_of(a.push(x), b.push(x)),
{
    assert(a.push(x).drop_last() =~= a);
    assert(b.push(x).drop_last() =~= b);
    assert(a.push(x).last() == b.push(x).last());
}

/// How one push changes the stomach part.
proof fn lemma_stomach_part_push(s: Seq<Objective>, x: Objective)
    ensures
        x.zone == ObjectiveZone::Stomach ==> stomach_part(s.push(x)) == stomach_part(s).push(x),
        x.zone != ObjectiveZone::Stomach ==> stomach_part(s.push(x)) == stomach_part(s),
{
    reveal(Seq::filter);
    assert(s.push(x).drop_last() =~= s);
    assert(s.push(x).last() == x);
}

/// Zone counts only depend on the elements up to `n`, so one push keeps
/// every per-taste pan count except the pushed token's own.
proof fn lemma_count_pan_taste_agree(s1: Seq<Objective>, s2: Seq<Objective>, t: Taste, n: int)
    requires
        n <= s1.len(),
        n <= s2.len(),
        forall|i: int| 0 <= i < n ==> s1[i] == s2[i],
    ensures
        count_pan_taste_upto(s1, t, n) == count_pan_taste_upto(s2, t, n),
    decreases n,
{
    if n > 0 {
        lemma_count_pan_taste_agree(s1, s2, t, n - 1);
    }
}

/// Appending one token adds one to its own pan-taste count, if any.
proof fn lemma_count_pan_taste_push(s: Seq<Objective>, x: Objective, t: Taste)
    ensures
        count_pan_taste(s.push(x), t) == count_pan_taste(s, t) + if x.zone == ObjectiveZone::Pan
            && x.taste == t {
            1int
        } else {
            0int
        },
{
    lemma_count_pan_taste_agree(s.push(x), s, t, s.len() as int);
}

/// Per-taste pan counts only grow with the prefix.
proof fn lemma_count_pan_taste_upto_monotone(s: Seq<Objective>, t: Taste, m: int, n: int)
    requires
        m <= n,
    ensures
        count_pan_taste_upto(s, t, m) <= count_pan_taste_upto(s, t, n),
    decreases n - m,
{
    if m < n {
        lemma_count_pan_taste_upto_monotone(s, t, m, n - 1);
    }
}

/// Two distinct pan tokens of one taste put its count at two or more.
proof fn lemma_two_pan_same_taste(s: Seq<Objective>, t: Taste, a: int, b: int)
    requires
        0 <= a < b < s.len(),
        s[a].zone == ObjectiveZone::Pan && s[a].taste == t,
        s[b].zone == ObjectiveZone::Pan && s[b].taste == t,
    ensures
        count_pan_taste(s, t) >= 2,
{
    lemma_count_pan_taste_upto_monotone(s, t, 0, a);
    assert(count_pan_taste_upto(s, t, a + 1) == count_pan_taste_upto(s, t, a) + 1);
    lemma_count_pan_taste_upto_monotone(s, t, a + 1, b);
    assert(count_pan_taste_upto(s, t, b + 1) == count_pan_taste_upto(s, t, b) + 1);
    lemma_count_pan_taste_upto_monotone(s, t, b + 1, s.len() as int);
}

/// Everything one cooking pass guarantees of its result, with the first
/// `i` source tokens processed: the surviving stomach tokens are a
/// sub-sequence of the source's stomach tokens, unchanged and never
/// duplicated; every processed pan token persists, at most with its
/// flight timer rewound, so the pan count never drops; per-taste pan
/// counts never drop and at most double; a taste with a single pan
/// token (no twin) is never duplicated; and every result token is a
/// source token, a timer-rewound pan source token, or a fresh duplicate
/// of a processed pan source token.
pub open spec fn cook_rel(objs: Seq<Objective>, res: Seq<Objective>, i: int, pan_pos: Vec2i) -> bool {
    &&& is_subseq_of(stomach_part(res), stomach_part(objs.subrange(0, i)))
    &&& count_zone(res, ObjectiveZone::Stomach) <= count_zone_upto(objs, ObjectiveZone::Stomach, i)
    &&& count_zone(res, ObjectiveZone::Pan) >= count_zone_upto(objs, ObjectiveZone::Pan, i)
    &&& forall|t: Taste| count_pan_taste_upto(objs, t, i) <= #[trigger] count_pan_taste(res, t)
    &&& forall|t: Taste| #[trigger] count_pan_taste(res, t) <= 2 * count_pan_taste_upto(objs, t, i)
    &&& forall|t: Taste|
        count_pan_taste(objs, t) <= 1 ==> #[trigger] count_pan_taste(res, t)
            == count_pan_taste_upto(objs, t, i)
    &&& forall|q: int|
        0 <= q < i && (#[trigger] objs[q]).zone == ObjectiveZone::Pan ==> exists|j: int|
            0 <= j < res.len() && ((#[trigger] res[j]) == objs[q] || timer_rewound(objs[q], res[j]))
    &&& forall|j: int|
        0 <= j < res.len() ==> exists|q: int|
            0 <= q < i && ((#[trigger] res[j]) == #[trigger] objs[q] || timer_rewound(
                objs[q],
                res[j],
            ) || is_pan_duplicate(res[j], objs[q], pan_pos))
}

/// Processing token `i` by keeping it unchanged preserves the cooking
/// relation.
proof fn lemma_cook_step_keep(objs: Seq<Objective>, res: Seq<Objective>, i: int, pan_pos: Vec2i)
    requires
        0 <= i < objs.len(),
        cook_rel(objs, res, i, pan_pos),
    ensures
        cook_rel(objs, res.push(objs[i]), i + 1, pan_pos),
{
    let o = objs[i];
    let res2 = res.push(o);
    let pre = objs.subrange(0, i);
    let post = objs.subrange(0, i + 1);
    assert(post.drop_last() =~= pre);
    assert(post.last() == o);
    reveal(Seq::filter);
    lemma_stomach_part_push(res, o);
    if o.zone == ObjectiveZone::Stomach {
        assert(stomach_part(post) == stomach_part(pre).push(o));
        lemma_subseq_match(stomach_part(res), stomach_part(pre), o);
    } else {
        assert(stomach_part(post) == stomach_part(pre));
    }
    lemma_count_zone_push(res, o, ObjectiveZone::Stomach);
    lemma_count_zone_push(res, o, ObjectiveZone::Pan);
    assert forall|t: Taste|
        count_pan_taste_upto(objs, t, i + 1) <= #[trigger] count_pan_taste(res2, t)
            && count_pan_taste(res2, t) <= 2 * count_pan_taste_upto(objs, t, i + 1) && (
        count_pan_taste(objs, t) <= 1 ==> count_pan_taste(res2, t) == count_pan_taste_upto(
            objs,
            t,
            i + 1,
        )) by {
        lemma_count_pan_taste_push(res, o, t);
    }
    assert forall|q: int|
        0 <= q < i + 1 && (#[trigger] objs[q]).zone == ObjectiveZone::Pan implies exists|j: int|
        0 <= j < res2.len() && ((#[trigger] res2[j]) == objs[q] || timer_rewound(
            objs[q],
            res2[j],
        )) by {
        if q < i {
            let j = choose|j: int|
                0 <= j < res.len() && ((#[trigger] res[j]) == objs[q] || timer_rewound(
                    objs[q],
                    res[j],
                ));
            assert(res2[j] == res[j]);
        } else {
            assert(res2[res.len() as int] == objs[q]);
        }
    }
    assert forall|j: int| 0 <= j < res2.len() implies exists|q: int|
        0 <= q < i + 1 && ((#[trigger] res2[j]) == #[trigger] objs[q] || timer_rewound(
            objs[q],
            res2[j],
        ) || is_pan_duplicate(res2[j], objs[q], pan_pos)) by {
        if j < res.len() {
            let q = choose|q: int|
                0 <= q < i && ((#[trigger] res[j]) == #[trigger] objs[q] || timer_rewound(
                    objs[q],
                    res[j],
                ) || is_pan_duplicate(res[j], objs[q], pan_pos));
            assert(res2[j] == res[j]);
        } else {
            assert(res2[j] == objs[i]);
        }
    }
}

/// Despawning the stomach token `i` preserves the cooking relation.
proof fn lemma_cook_step_drop(objs: Seq<Objective>, res: Seq<Objective>, i: int, pan_pos: Vec2i)
    requires
        0 <= i < objs.len(),
        objs[i].zone == ObjectiveZone::Stomach,
        cook_rel(objs, res, i, pan_pos),
    ensures
        cook_rel(objs, res, i + 1, pan_pos),
{
    let o = objs[i];
    let pre = objs.subrange(0, i);
    let post = objs.subrange(0, i + 1);
    assert(post.drop_last() =~= pre);
    assert(post.last() == o);
    reveal(Seq::filter);
    assert(stomach_part(post) == stomach_part(pre).push(o));
    lemma_subseq_skip(stomach_part(res), stomach_part(pre), o);
    assert forall|t: Taste|
        count_pan_taste_upto(objs, t, i + 1) <= #[trigger] count_pan_taste(res, t)
            && count_pan_taste(res, t) <= 2 * count_pan_taste_upto(objs, t, i + 1) && (
        count_pan_taste(objs, t) <= 1 ==> count_pan_taste(res, t) == count_pan_taste_upto(
            objs,
            t,
            i + 1,
        )) by {}
}

/// Re-animating the twinned pan token `i` and appending a duplicate
/// preserves the cooking relation.
proof fn lemma_cook_step_dup(
    objs: Seq<Objective>,
    res: Seq<Objective>,
    i: int,
    pan_pos: Vec2i,
    renewed: Objective,
    dup: Objective,
)
    requires
        0 <= i < objs.len(),
        objs[i].zone == ObjectiveZone::Pan,
        timer_rewound(objs[i], renewed),
        is_pan_duplicate(dup, objs[i], pan_pos),
        count_pan_taste(objs, objs[i].taste) >= 2,
        cook_rel(objs, res, i, pan_pos),
    ensures
        cook_rel(objs, res.push(renewed).push(dup), i + 1, pan_pos),
{
    let o = objs[i];
    let mid = res.push(renewed);
    let res2 = mid.push(dup);
    let pre = objs.subrange(0, i);
    let post = objs.subrange(0, i + 1);
    assert(post.drop_last() =~= pre);
    assert(post.last() == o);
    reveal(Seq::filter);
    lemma_stomach_part_push(res, renewed);
    lemma_stomach_part_push(mid, dup);
    assert(stomach_part(post) == stomach_part(pre));
    lemma_count_zone_push(res, renewed, ObjectiveZone::Stomach);
    lemma_count_zone_push(mid, dup, ObjectiveZone::Stomach);
    lemma_count_zone_push(res, renewed, ObjectiveZone::Pan);
    lemma_count_zone_push(mid, dup, ObjectiveZone::Pan);
    assert forall|t: Taste|
        count_pan_taste_upto(objs, t, i + 1) <= #[trigger] count_pan_taste(res2, t)
            && count_pan_taste(res2, t) <= 2 * count_pan_taste_upto(objs, t, i + 1) && (
        count_pan_taste(objs, t) <= 1 ==> count_pan_taste(res2, t) == count_pan_taste_upto(
            objs,
            t,
            i + 1,
        )) by {
        lemma_count_pan_taste_push(res, renewed, t);
        lemma_count_pan_taste_push(mid, dup, t);
    }
    assert forall|q: int|
        0 <= q < i + 1 && (#[trigger] objs[q]).zone == ObjectiveZone::Pan implies exists|j: int|
        0 <= j < res2.len() && ((#[trigger] res2[j]) == objs[q] || timer_rewound(
            objs[q],
            res2[j],
        )) by {
        if q < i {
            let j = choose|j: int|
                0 <= j < res.len() && ((#[trigger] res[j]) == objs[q] || timer_rewound(
                    objs[q],
                    res[j],
                ));
            assert(res2[j] == res[j]);
        } else {
            assert(timer_rewound(objs[q], res2[res.len() as int]));
        }
    }
    assert forall|j: int| 0 <= j < res2.len() implies exists|q: int|
        0 <= q < i + 1 && ((#[trigger] res2[j]) == #[trigger] objs[q] || timer_rewound(
            objs[q],
            res2[j],
        ) || is_pan_duplicate(res2[j], objs[q], pan_pos)) by {
        if j < res.len() {
            let q = choose|q: int|
                0 <= q < i && ((#[trigger] res[j]) == #[trigger] objs[q] || timer_rewound(
                    objs[q],
                    res[j],
                ) || is_pan_duplicate(res[j], objs[q], pan_pos));
            assert(res2[j] == res[j]);
        } else if j == res.len() {
            assert(timer_rewound(objs[i], res2[j]));
        } else {
            assert(is_pan_duplicate(res2[j], objs[i], pan_pos));
        }
    }
}

} // verus!
