//! The round/reward machinery: world layout on leaving setup, the match
//! clocks, the pan smash animation, and the smash tally that scores the
//! pan tokens against the customer's palate and adjusts the difficulty.

use vstd::prelude::*;

verus! {

use crate::flavor::Flavor;
use crate::geom::{lerp, lemma_lerp1_bounds, spec_lerp, Vec2i, TIME_LIMIT};
use crate::objectives::{count_pan_taste, count_pan_taste_upto, count_zone, count_zone_upto};
use crate::state::{
    AudioCue, Dude, GameState, Objective, ObjectiveZone, Pan, PanSmashEvent, Phase, UiState,
    PAN_MS, SHELF_COUNT,
};
use crate::taste::Taste;
use crate::timer::Timer;

/// The eased pan travel fraction in milli-units after `e` of the 2000 ms
/// smash animation: the fifth power of the time fraction, scaled so the
/// pan reaches the mouth halfway through, clamped at 1.0.
pub open spec fn spec_ease(e: int) -> int {
    let v = e * e * e * e * e / 1_000_000_000_000;
    if v > 1000 {
        1000
    } else {
        v
    }
}

/// Computes the eased pan travel fraction.
pub fn ease_milli(e: u64) -> (r: u64)
    requires
        e <= PAN_MS,
    ensures
        r == spec_ease(e as int),
        r <= 1000,
{
    proof {
        assert(e * e <= 4_000_000) by (nonlinear_arith)
            requires
                e <= 2000,
        ;
    }
    let e2 = e * e;
    proof {
        assert(e2 * e2 <= 16_000_000_000_000) by (nonlinear_arith)
            requires
                e2 <= 4_000_000,
        ;
    }
    let e4 = e2 * e2;
    proof {
        assert(e4 * e <= 32_000_000_000_000_000) by (nonlinear_arith)
            requires
                e4 <= 16_000_000_000_000 && e <= 2000,
        ;
    }
    let e5 = e4 * e;
    proof {
        let ei = e as int;
        assert(e5 == ei * ei * ei * ei * ei) by (nonlinear_arith)
            requires
                e2 == ei * ei && e4 == e2 * e2 && e5 == e4 * ei,
        ;
    }
    let v = e5 / 1_000_000_000_000;
    if v > 1000 {
        1000
    } else {
        v
    }
}

/// The sum, in milli-units, of the palate's values over the first `n`
/// objectives that sit in the pan zone.
pub open spec fn pan_sum_upto(objs: Seq<Objective>, palate: Flavor, n: int) -> int
    decreases n,
{
    if n <= 0 {
        0
    } else {
        pan_sum_upto(objs, palate, n - 1) + if objs[n - 1].zone == ObjectiveZone::Pan {
            palate.value(objs[n - 1].taste)
        } else {
            0
        }
    }
}

/// The smash sum: each pan-zone objective contributes the palate's value
/// for its taste; stomach objectives contribute nothing.
pub open spec fn pan_sum(objs: Seq<Objective>, palate: Flavor) -> int {
    pan_sum_upto(objs, palate, objs.len() as int)
}

/// The smash sum decomposes by taste: with `n` pan tokens of a taste
/// and a palate value `p` for it, that taste contributes exactly
/// `n * p`, and the total is the sum of the eight per-taste
/// contributions.
pub proof fn lemma_pan_sum_by_taste(objs: Seq<Objective>, palate: Flavor)
    ensures
        pan_sum(objs, palate) == count_pan_taste(objs, Taste::Sweet) * palate.value(Taste::Sweet)
            + count_pan_taste(objs, Taste::Sour) * palate.value(Taste::Sour) + count_pan_taste(
            objs,
            Taste::Salty,
        ) * palate.value(Taste::Salty) + count_pan_taste(objs, Taste::Bitter) * palate.value(
            Taste::Bitter,
        ) + count_pan_taste(objs, Taste::Savory) * palate.value(Taste::Savory) + count_pan_taste(
            objs,
            Taste::Spicy,
        ) * palate.value(Taste::Spicy) + count_pan_taste(objs, Taste::Cool) * palate.value(
            Taste::Cool,
        ) + count_pan_taste(objs, Taste::Dry) * palate.value(Taste::Dry),
{
    lemma_pan_sum_by_taste_upto(objs, palate, objs.len() as int);
}

proof fn lemma_pan_sum_by_taste_upto(objs: Seq<Objective>, palate: Flavor, n: int)
    ensures
        pan_sum_upto(objs, palate, n) == count_pan_taste_upto(objs, Taste::Sweet, n)
            * palate.value(Taste::Sweet) + count_pan_taste_upto(objs, Taste::Sour, n)
            * palate.value(Taste::Sour) + count_pan_taste_upto(objs, Taste::Salty, n)
            * palate.value(Taste::Salty) + count_pan_taste_upto(objs, Taste::Bitter, n)
            * palate.value(Taste::Bitter) + count_pan_taste_upto(objs, Taste::Savory, n)
            * palate.value(Taste::Savory) + count_pan_taste_upto(objs, Taste::Spicy, n)
            * palate.value(Taste::Spicy) + count_pan_taste_upto(objs, Taste::Cool, n)
            * palate.value(Taste::Cool) + count_pan_taste_upto(objs, Taste::Dry, n) * palate.value(
            Taste::Dry,
        ),
    decreases n,
{
    if n > 0 {
        lemma_pan_sum_by_taste_upto(objs, palate, n - 1);
        let o = objs[n - 1];
        if o.zone == ObjectiveZone::Pan {
            assert forall|t: Taste|
                count_pan_taste_upto(objs, t, n) == count_pan_taste_upto(objs, t, n - 1) + if o.taste
                    == t {
                    1int
                } else {
                    0int
                } by {}
            assert((count_pan_taste_upto(objs, o.taste, n - 1) + 1) * palate.value(o.taste)
                == count_pan_taste_upto(objs, o.taste, n - 1) * palate.value(o.taste)
                + palate.value(o.taste)) by (nonlinear_arith);
        }
    }
}

/// Two token sequences that agree pointwise on taste and zone score the
/// same smash sum against any palate.
pub proof fn lemma_pan_sum_preserved(s1: Seq<Objective>, s2: Seq<Objective>, palate: Flavor)
    requires
        s1.len() == s2.len(),
        forall|i: int|
            0 <= i < s1.len() ==> (#[trigger] s1[i]).taste == (#[trigger] s2[i]).taste
                && s1[i].zone == s2[i].zone,
    ensures
        pan_sum(s1, palate) == pan_sum(s2, palate),
{
    lemma_pan_sum_preserved_upto(s1, s2, palate, s1.len() as int);
}

proof fn lemma_pan_sum_preserved_upto(s1: Seq<Objective>, s2: Seq<Objective>, palate: Flavor, n: int)
    requires
        n <= s1.len(),
        n <= s2.len(),
        forall|i: int|
            0 <= i < s1.len() ==> (#[trigger] s1[i]).taste == (#[trigger] s2[i]).taste
                && s1[i].zone == s2[i].zone,
    ensures
        pan_sum_upto(s1, palate, n) == pan_sum_upto(s2, palate, n),
    decreases n,
{
    if n > 0 {
        lemma_pan_sum_preserved_upto(s1, s2, palate, n - 1);
    }
}

/// The truncation of a milli-unit sum toward zero, matching a float cast
/// to an integer.
pub open spec fn trunc_milli(s: int) -> int {
    if s >= 0 {
        s / 1000
    } else {
        -((-s) / 1000)
    }
}

impl GameState {
    /// Lays the world out on leaving setup: the three shelf slots, the
    /// pan at its rest position with the smash animation armed, the
    /// mouth, stomach and customer anchors, a cleared display, and the
    /// looping ambient track cued.
    pub fn setup(&mut self)
        requires
            old(self).wf(),
            old(self).phase == Phase::Setup,
        ensures
            final(self).wf(),
            *final(self) == (GameState {
                shelf_pos: final(self).shelf_pos,
                pan: final(self).pan,
                mouth: final(self).mouth,
                stomach_anchor: final(self).stomach_anchor,
                dude_point: final(self).dude_point,
                ui: final(self).ui,
                cues: final(self).cues,
                ..*old(self)
            }),
            final(self).shelf_pos@.len() == SHELF_COUNT,
            final(self).shelf_pos@[0] == (Vec2i { x: -472i64, y: -200i64 }),
            final(self).shelf_pos@[1] == (Vec2i { x: -472i64, y: 0i64 }),
            final(self).shelf_pos@[2] == (Vec2i { x: -472i64, y: 200i64 }),
            final(self).pan == (Pan {
                from: Vec2i { x: 0i64, y: -222i64 },
                goto: Vec2i { x: 0i64, y: 158i64 },
                pos: Vec2i { x: 0i64, y: -222i64 },
                frame: 0,
                timer: Timer {
                    duration_ms: PAN_MS,
                    elapsed_ms: 0,
                    repeating: false,
                    just_finished: false,
                },
                smashed: false,
            }),
            final(self).mouth == (Vec2i { x: 0, y: 158 }),
            final(self).stomach_anchor == (Vec2i { x: 0, y: 0 }),
            final(self).dude_point == (Vec2i { x: 0, y: 94 }),
            final(self).ui == (UiState {
                win_visible: false,
                lose_visible: false,
                stomach_count: 0,
                pan_count: 0,
                shown_threshold: 0,
                timer_cutoff: 0,
            }),
            final(self).cues@ == old(self).cues@ + seq![AudioCue::Ambient],
    {
        let mut shelf_pos: Vec<Vec2i> = Vec::new();
        shelf_pos.push(Vec2i { x: -472, y: -200 });
        shelf_pos.push(Vec2i { x: -472, y: 0 });
        shelf_pos.push(Vec2i { x: -472, y: 200 });
        self.shelf_pos = shelf_pos;
        self.pan = Pan {
            from: Vec2i { x: 0, y: -222 },
            goto: Vec2i { x: 0, y: 158 },
            pos: Vec2i { x: 0, y: -222 },
            frame: 0,
            timer: Timer::new(PAN_MS, false),
            smashed: false,
        };
        self.mouth = Vec2i { x: 0, y: 158 };
        self.stomach_anchor = Vec2i { x: 0, y: 0 };
        self.dude_point = Vec2i { x: 0, y: 94 };
        self.ui = UiState::default();
        self.cues.push(AudioCue::Ambient);
    }

    /// Polls the asset collaborator once during setup: the session stays
    /// in setup until every handle reports loaded, then lays the world
    /// out, spawns the first customer and stocks every shelf slot.
    pub fn check_all(&mut self, assets_loaded: bool)
        requires
            old(self).wf(),
            old(self).phase == Phase::Setup,
            old(self).next_id <= u64::MAX - 8,
        ensures
            final(self).wf(),
            !assets_loaded ==> *final(self) == *old(self),
            assets_loaded ==> *final(self) == (GameState {
                phase: Phase::Game,
                shelf_pos: final(self).shelf_pos,
                pan: final(self).pan,
                mouth: final(self).mouth,
                stomach_anchor: final(self).stomach_anchor,
                dude_point: final(self).dude_point,
                ui: final(self).ui,
                cues: final(self).cues,
                dude: final(self).dude,
                pref_tokens: final(self).pref_tokens,
                foods: final(self).foods,
                next_id: final(self).next_id,
                ..*old(self)
            }),
            assets_loaded ==> final(self).shelf_pos@.len() == SHELF_COUNT && final(self).shelf_pos@[0] == (Vec2i { x: -472i64, y: -200i64 }) && final(self).shelf_pos@[1] == (
            Vec2i { x: -472i64, y: 0i64 }) && final(self).shelf_pos@[2] == (Vec2i {
                x: -472i64,
                y: 200i64,
            }),
            assets_loaded ==> final(self).pan == (Pan {
                from: Vec2i { x: 0i64, y: -222i64 },
                goto: Vec2i { x: 0i64, y: 158i64 },
                pos: Vec2i { x: 0i64, y: -222i64 },
                frame: 0,
                timer: Timer {
                    duration_ms: PAN_MS,
                    elapsed_ms: 0,
                    repeating: false,
                    just_finished: false,
                },
                smashed: false,
            }),
            assets_loaded ==> final(self).mouth == (Vec2i { x: 0, y: 158 }) && final(self).stomach_anchor == (Vec2i { x: 0, y: 0 }) && final(self).dude_point == (Vec2i {
                x: 0,
                y: 94,
            }),
            assets_loaded ==> final(self).ui == (UiState {
                win_visible: false,
                lose_visible: false,
                stomach_count: 0,
                pan_count: 0,
                shown_threshold: 0,
                timer_cutoff: 0,
            }),
            assets_loaded ==> final(self).cues@ == old(self).cues@ + seq![AudioCue::Ambient],
            assets_loaded ==> (final(self).dude matches Option::Some(d) && {
                &&& d.cycles == 0 && !d.puking && !d.yeah && d.frame == 0
                &&& d.skin < old(self).info.dude@.len()
                &&& d.timer.elapsed_ms == 0 && !d.timer.repeating && 80 <= d.timer.duration_ms
                    < 150 && !d.timer.just_finished
                &&& d.palate.wf()
                &&& forall|t: Taste| crate::flavor::is_palate_value(#[trigger] d.palate.value(t))
                &&& final(self).pref_tokens@ == crate::dude::pref_tokens_spec(d.palate)
            }),
            assets_loaded ==> (forall|s: int|
                0 <= s < SHELF_COUNT ==> crate::shelf::exactly_one_shelved(
                    final(self).foods@,
                    s,
                )) && forall|i: int|
                0 <= i < final(self).foods@.len() ==> (#[trigger] final(self).foods@[i]).state
                    == crate::state::FoodState::Shelved,
            final(self).phase == if assets_loaded {
                Phase::Game
            } else {
                Phase::Setup
            },
            final(self).score == old(self).score,
            final(self).difficulty == old(self).difficulty,
            final(self).hand == old(self).hand,
            final(self).timers == old(self).timers,
            final(self).objectives@ == old(self).objectives@,
            final(self).pointer == old(self).pointer,
    {
        if assets_loaded {
            self.setup();
            self.spawn_dude();
            self.run_shelf_refresh(&crate::state::RefreshShelfEvent { clear: true });
            proof {
                assert forall|i: int| 0 <= i < self.foods@.len() implies (
                #[trigger] self.foods@[i]).state == crate::state::FoodState::Shelved by {
                    assert(self.foods@[i].inv(self.shelf_pos@.len() as int, self.next_id));
                }
            }
        }
    }

    /// Advances the round clocks: the active round runs on the repeating
    /// game clock and asks for the reward phase when it wraps; the
    /// reward phase runs on the repeating reward clock and asks for the
    /// next round when it wraps.
    pub fn match_timers(&mut self, delta: u64) -> (r: Option<Phase>)
        requires
            old(self).wf(),
            old(self).in_round(),
            delta <= TIME_LIMIT,
        ensures
            final(self).wf(),
            *final(self) == (GameState { timers: final(self).timers, ..*old(self) }),
            old(self).phase == Phase::Game ==> final(self).timers == (
            crate::timer::MatchTimers {
                game: old(self).timers.game.spec_tick(delta),
                ..old(self).timers
            }) && r == if old(self).timers.game.spec_tick(delta).spec_finished() {
                Option::Some(Phase::Reward)
            } else {
                Option::<Phase>::None
            },
            old(self).phase == Phase::Reward ==> final(self).timers == (
            crate::timer::MatchTimers {
                reward: old(self).timers.reward.spec_tick(delta),
                ..old(self).timers
            }) && r == if old(self).timers.reward.spec_tick(delta).spec_finished() {
                Option::Some(Phase::Game)
            } else {
                Option::<Phase>::None
            },
    {
        if matches!(self.phase, Phase::Game) {
            self.timers.game.tick(delta);
            if self.timers.game.finished() {
                Some(Phase::Reward)
            } else {
                None
            }
        } else {
            self.timers.reward.tick(delta);
            if self.timers.reward.finished() {
                Some(Phase::Game)
            } else {
                None
            }
        }
    }

    /// Hides the win and lose banners on leaving the reward phase.
    pub fn reset_ui(&mut self)
        ensures
            *final(self) == (GameState { ui: final(self).ui, ..*old(self) }),
            final(self).ui == (UiState {
                win_visible: false,
                lose_visible: false,
                ..old(self).ui
            }),
            old(self).wf() ==> final(self).wf(),
    {
        self.ui.win_visible = false;
        self.ui.lose_visible = false;
    }

    /// Re-arms the smash animation on leaving the reward phase.
    pub fn pan_reset(&mut self)
        ensures
            *final(self) == (GameState { pan: final(self).pan, ..*old(self) }),
            final(self).pan == (Pan { smashed: false, ..old(self).pan }),
            old(self).wf() ==> final(self).wf(),
    {
        self.pan.smashed = false;
    }

    /// Runs the smash animation while the reward phase lasts, gated by
    /// the `smashed` flag. The pan slides from its rest position toward
    /// the mouth on an eased curve, flipping through its three frames,
    /// dragging the pan tokens' targets along, and cueing the customer's
    /// cheer past the halfway mark; when its 2 second timer runs out it
    /// fires the smash event once and snaps back.
    #[verifier::loop_isolation(false)]
    pub fn pan_anim(&mut self, delta: u64) -> (r: Option<PanSmashEvent>)
        requires
            old(self).wf(),
            old(self).phase == Phase::Reward,
            delta <= TIME_LIMIT,
        ensures
            final(self).wf(),
            *final(self) == (GameState {
                pan: final(self).pan,
                objectives: final(self).objectives,
                dude: final(self).dude,
                cues: final(self).cues,
                ..*old(self)
            }),
            old(self).pan.smashed ==> *final(self) == *old(self) && r is None,
            !old(self).pan.smashed ==> {
                let t2 = old(self).pan.timer.spec_tick(delta);
                &&& t2.just_finished ==> r == Option::Some(PanSmashEvent {}) && final(self).pan
                    == (Pan {
                    timer: Timer { elapsed_ms: 0, just_finished: false, ..t2 },
                    pos: old(self).pan.from,
                    frame: 0,
                    smashed: true,
                    ..old(self).pan
                }) && final(self).objectives@ == old(self).objectives@ && final(self).dude == old(self).dude && final(self).cues@ == old(self).cues@
                &&& !t2.just_finished ==> {
                    let em = spec_ease(t2.elapsed_ms as int);
                    let newpos = spec_lerp(old(self).pan.from, old(self).pan.goto, em, 1000);
                    let cheer = t2.elapsed_ms > 1000;
                    &&& r is None
                    &&& final(self).pan == (Pan {
                        timer: t2,
                        pos: newpos,
                        frame: if t2.elapsed_ms < 500 {
                            0u32
                        } else if t2.elapsed_ms < 1000 {
                            1u32
                        } else {
                            2u32
                        },
                        ..old(self).pan
                    })
                    &&& old(self).dude matches Option::Some(d) ==> final(self).dude
                        == Option::Some(Dude { yeah: d.yeah || cheer, ..d }) && final(self).cues@
                        == old(self).cues@ + if cheer && !d.yeah {
                        seq![AudioCue::Yeah { skin: d.skin }]
                    } else {
                        Seq::<AudioCue>::empty()
                    }
                    &&& final(self).objectives@.len() == old(self).objectives@.len()
                    &&& forall|i: int|
                        0 <= i < old(self).objectives@.len() ==> final(self).objectives@[i] == {
                            let o = #[trigger] old(self).objectives@[i];
                            if o.zone == ObjectiveZone::Pan {
                                Objective { goto: newpos, ..o }
                            } else {
                                o
                            }
                        }
                }
            },
    {
        if self.pan.smashed {
            return None;
        }
        self.pan.timer.tick(delta);
        if self.pan.timer.just_finished() {
            self.pan.timer.reset();
            self.pan.pos = self.pan.from;
            self.pan.frame = 0;
            self.pan.smashed = true;
            Some(PanSmashEvent {})
        } else {
            let t2 = self.pan.timer;
            let em = ease_milli(t2.elapsed_ms);
            let newpos = lerp(&self.pan.from, &self.pan.goto, em, 1000);
            proof {
                lemma_lerp1_bounds(
                    self.pan.from.x as int,
                    self.pan.goto.x as int,
                    em as int,
                    1000,
                );
                lemma_lerp1_bounds(
                    self.pan.from.y as int,
                    self.pan.goto.y as int,
                    em as int,
                    1000,
                );
            }
            let cheer = t2.elapsed_ms > 1000;
            if cheer {
                let d = match &self.dude {
                    Some(d) => *d,
                    None => {
                        proof {
                            assert(false);
                        }
                        return None;
                    },
                };
                if !d.yeah {
                    self.cues.push(AudioCue::Yeah { skin: d.skin });
                    self.dude = Some(Dude { yeah: true, ..d });
                }
            }
            self.pan.pos = newpos;
            self.pan.frame = if t2.elapsed_ms < 500 {
                0
            } else if t2.elapsed_ms < 1000 {
                1
            } else {
                2
            };
            let n = self.objectives.len();
            let ghost mid = *self;
            let mut i: usize = 0;
            while i < n
                invariant
                    n == self.objectives@.len(),
                    i <= n,
                    *self == (GameState { objectives: self.objectives, ..mid }),
                    forall|k: int|
                        0 <= k < i ==> #[trigger] self.objectives@[k] == {
                            let o = old(self).objectives@[k];
                            if o.zone == ObjectiveZone::Pan {
                                Objective { goto: newpos, ..o }
                            } else {
                                o
                            }
                        } && self.objectives@[k].inv(),
                    forall|k: int| i <= k < n ==> self.objectives@[k] == old(self).objectives@[k],
                decreases n - i,
            {
                proof {
                    assert(old(self).objectives@[i as int].inv());
                }
                if matches!(self.objectives[i].zone, ObjectiveZone::Pan) {
                    self.objectives[i].goto = newpos;
                }
                i = i + 1;
            }
            None
        }
    }

    /// Scores one pan smash: each pan token contributes the customer's
    /// palate value for its taste, the milli-unit sum is truncated
    /// toward zero and compared against the difficulty threshold with
    /// `>=` as the success boundary. On success the threshold rises by
    /// 10 and the win banner shows; on failure it falls by 3, without
    /// any floor, and the lose banner shows. Either way all pan tokens
    /// despawn and the customer's chew cycles reset.
    #[verifier::loop_isolation(false)]
    pub fn tally(&mut self, smash: bool)
        requires
            old(self).wf(),
            old(self).phase == Phase::Reward,
            old(self).score.successes < u32::MAX,
            old(self).score.losses < u32::MAX,
            i64::MIN + 3 <= old(self).difficulty.threshold <= i64::MAX - 10,
        ensures
            final(self).wf(),
            !smash ==> *final(self) == *old(self),
            smash ==> *final(self) == (GameState {
                objectives: final(self).objectives,
                dude: final(self).dude,
                score: final(self).score,
                difficulty: final(self).difficulty,
                ui: final(self).ui,
                ..*old(self)
            }),
            smash ==> (old(self).dude matches Option::Some(d) && {
                let sum = pan_sum(old(self).objectives@, d.palate);
                let win = trunc_milli(sum) >= old(self).difficulty.threshold;
                &&& final(self).objectives@ == old(self).objectives@.filter(
                    |o: Objective| o.zone != ObjectiveZone::Pan,
                )
                &&& final(self).dude == Option::Some(Dude { cycles: 0, ..d })
                &&& win ==> final(self).score == (crate::state::Score {
                    successes: (old(self).score.successes + 1) as u32,
                    ..old(self).score
                }) && final(self).difficulty.threshold == old(self).difficulty.threshold + 10
                    && final(self).ui == (UiState { win_visible: true, ..old(self).ui })
                &&& !win ==> final(self).score == (crate::state::Score {
                    losses: (old(self).score.losses + 1) as u32,
                    ..old(self).score
                }) && final(self).difficulty.threshold == old(self).difficulty.threshold - 3
                    && final(self).ui == (UiState { lose_visible: true, ..old(self).ui })
            }),
    {
        if !smash {
            return ;
        }
        let d = match &self.dude {
            Some(d) => *d,
            None => {
                proof {
                    assert(false);
                }
                return ;
            },
        };
        let n = self.objectives.len();
        let mut sum: i64 = 0;
        let mut i: usize = 0;
        while i < n
            invariant
                old(self).wf(),
                *self == *old(self),
                old(self).dude == Option::Some(d),
                n == self.objectives@.len(),
                i <= n,
                n <= crate::state::MAX_OBJECTIVES,
                sum == pan_sum_upto(self.objectives@, d.palate, i as int),
                -1_000_000 * (i as int) <= sum <= 1_000_000 * (i as int),
            decreases n - i,
        {
            proof {
                assert(old(self).objectives@[i as int].inv());
                assert(d.inv(old(self).info.dude@.len() as int));
            }
            if matches!(self.objectives[i].zone, ObjectiveZone::Pan) {
                let t = self.objectives[i].taste;
                let p = d.palate.get(t);
                proof {
                    assert(-1_000_000 * (i as int) - 1_000_000 <= sum + p <= 1_000_000 * (i as int)
                        + 1_000_000) by (nonlinear_arith)
                        requires
                            -1_000_000 * (i as int) <= sum <= 1_000_000 * (i as int) && -1_000_000
                                <= p <= 1_000_000,
                    ;
                    assert(-1_000_000 * (i + 1 as int) == -1_000_000 * (i as int) - 1_000_000)
                        by (nonlinear_arith);
                    assert(1_000_000 * (i + 1 as int) == 1_000_000 * (i as int) + 1_000_000)
                        by (nonlinear_arith);
                }
                sum = sum + p;
            } else {
                proof {
                    assert(-1_000_000 * (i + 1 as int) <= -1_000_000 * (i as int))
                        by (nonlinear_arith);
                    assert(1_000_000 * (i as int) <= 1_000_000 * (i + 1 as int))
                        by (nonlinear_arith);
                }
            }
            i = i + 1;
        }
        proof {
            assert(-5_000_000_000 <= sum <= 5_000_000_000) by (nonlinear_arith)
                requires
                    -1_000_000 * (i as int) <= sum <= 1_000_000 * (i as int) && i
                        <= crate::state::MAX_OBJECTIVES,
            ;
        }
        let score_int: i64 = if sum >= 0 {
            ((sum as u64) / 1000) as i64
        } else {
            -((((-sum) as u64) / 1000) as i64)
        };
        proof {
            assert(score_int == trunc_milli(pan_sum(old(self).objectives@, d.palate)));
        }
        let mut kept: Vec<Objective> = Vec::new();
        let ghost orig = self.objectives@;
        proof {
            assert(orig.len() == self.objectives.len());
        }
        let mut k: usize = 0;
        while self.objectives.len() > 0
            invariant
                *self == (GameState { objectives: self.objectives, ..*old(self) }),
                orig == old(self).objectives@,
                orig.len() <= usize::MAX,
                orig.len() == k + self.objectives@.len(),
                orig.subrange(k as int, orig.len() as int) == self.objectives@,
                kept@ == orig.subrange(0, k as int).filter(
                    |o: Objective| o.zone != ObjectiveZone::Pan,
                ),
                forall|p: int| 0 <= p < kept@.len() ==> (#[trigger] kept@[p]).inv(),
                forall|p: int| 0 <= p < kept@.len() ==> (#[trigger] kept@[p]).zone
                    != ObjectiveZone::Pan,
                k <= orig.len(),
            decreases self.objectives@.len(),
        {
            let o = self.objectives.remove(0);
            proof {
                let pred = |o2: Objective| o2.zone != ObjectiveZone::Pan;
                let pre = orig.subrange(0, k as int);
                let post = orig.subrange(0, k + 1 as int);
                assert(orig.subrange(k as int, orig.len() as int)[0] == orig[k as int]);
                assert(o == orig[k as int]);
                assert(old(self).objectives@[k as int].inv());
                assert(post.drop_last() =~= pre);
                assert(post.last() == o);
                reveal(Seq::filter);
                assert(orig.subrange(k + 1 as int, orig.len() as int) =~= self.objectives@);
            }
            if !matches!(o.zone, ObjectiveZone::Pan) {
                kept.push(o);
                proof {
                    assert(kept@ =~= orig.subrange(0, k + 1 as int).filter(
                        |o2: Objective| o2.zone != ObjectiveZone::Pan,
                    ));
                }
            } else {
                proof {
                    assert(kept@ =~= orig.subrange(0, k + 1 as int).filter(
                        |o2: Objective| o2.zone != ObjectiveZone::Pan,
                    ));
                }
            }
            k = k + 1;
        }
        proof {
            assert(orig.subrange(0, orig.len() as int) =~= orig);
            orig.lemma_filter_len(|o2: Objective| o2.zone != ObjectiveZone::Pan);
        }
        self.objectives = kept;
        self.dude = Some(Dude { cycles: 0, ..d });
        if score_int >= self.difficulty.threshold {
            self.score.successes = self.score.successes + 1;
            self.difficulty.threshold = self.difficulty.threshold + 10;
            self.ui.win_visible = true;
        } else {
            self.score.losses = self.score.losses + 1;
            self.difficulty.threshold = self.difficulty.threshold - 3;
            self.ui.lose_visible = true;
        }
    }

    /// Refreshes the display readouts: the difficulty threshold and the
    /// number of live tokens in each zone.
    pub fn update_ui(&mut self)
        requires
            old(self).wf(),
        ensures
            final(self).wf(),
            *final(self) == (GameState { ui: final(self).ui, ..*old(self) }),
            final(self).ui == (UiState {
                stomach_count: final(self).ui.stomach_count,
                pan_count: final(self).ui.pan_count,
                shown_threshold: old(self).difficulty.threshold,
                ..old(self).ui
            }),
            final(self).ui.stomach_count == count_zone(
                old(self).objectives@,
                ObjectiveZone::Stomach,
            ),
            final(self).ui.pan_count == count_zone(old(self).objectives@, ObjectiveZone::Pan),
    {
        let n = self.objectives.len();
        let mut stomach: usize = 0;
        let mut pan: usize = 0;
        let mut i: usize = 0;
        while i < n
            invariant
                n == self.objectives@.len(),
                i <= n,
                stomach == count_zone_upto(self.objectives@, ObjectiveZone::Stomach, i as int),
                pan == count_zone_upto(self.objectives@, ObjectiveZone::Pan, i as int),
                stomach <= i,
                pan <= i,
            decreases n - i,
        {
            if matches!(self.objectives[i].zone, ObjectiveZone::Stomach) {
                stomach = stomach + 1;
            } else {
                pan = pan + 1;
            }
            i = i + 1;
        }
        self.ui.stomach_count = stomach;
        self.ui.pan_count = pan;
        self.ui.shown_threshold = self.difficulty.threshold;
    }

    /// Refreshes the round-clock display: the number of spent tenths of
    /// the running clock's period, used to hide that many segments.
    pub fn update_ui_timer(&mut self)
        requires
            old(self).wf(),
            old(self).in_round(),
        ensures
            final(self).wf(),
            *final(self) == (GameState { ui: final(self).ui, ..*old(self) }),
            final(self).ui == (UiState { timer_cutoff: final(self).ui.timer_cutoff, ..old(self).ui }),
            final(self).ui.timer_cutoff == {
                let t = if old(self).phase == Phase::Game {
                    old(self).timers.game
                } else {
                    old(self).timers.reward
                };
                t.elapsed_ms * 10 / (t.duration_ms as int)
            },
    {
        let t = if matches!(self.phase, Phase::Game) {
            self.timers.game
        } else {
            self.timers.reward
        };
        self.ui.timer_cutoff = t.elapsed_ms * 10 / t.duration_ms;
    }
}

} // verus!
