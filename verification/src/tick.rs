//! The tick coordinator: one simulated time-step runs the subsystems in
//! a fixed pipeline order, drains every event it produced, and performs
//! the phase transitions of the `Init -> Setup -> Game <-> Reward`
//! machine.

use vstd::prelude::*;

verus! {

use crate::geom::{Vec2i, TIME_LIMIT};
use crate::objectives::{count_pan_taste, count_zone, lemma_counts_preserved, lemma_count_zone_absent};
use crate::round::{lemma_pan_sum_preserved, pan_sum, trunc_milli};
use crate::state::{EatEvent, Food, GameState, Objective, ObjectiveZone, Phase};
use crate::taste::Taste;
use crate::timer::MatchTimers;

/// What the embedding program feeds the simulation each tick: the
/// elapsed time, a pointer move if one happened, whether a press edge
/// was seen, and the asset collaborator's load poll.
pub struct TickInput {
    pub delta_ms: u64,
    pub pointer: Option<Vec2i>,
    pub pressed: bool,
    pub assets_loaded: bool,
}

/// The phase transitions one tick may make: loading always follows
/// startup, setup is left only into the active round, and the active
/// round and the reward phase alternate.
pub open spec fn phase_step(p: Phase, q: Phase) -> bool {
    match p {
        Phase::Init => q == Phase::Setup,
        Phase::Setup => q == Phase::Setup || q == Phase::Game,
        Phase::Game => q == Phase::Game || q == Phase::Reward,
        Phase::Reward => q == Phase::Reward || q == Phase::Game,
    }
}

/// How far along the one-way part of the machine a phase is: the round
/// phases share the final rank because they alternate forever.
pub open spec fn phase_rank(p: Phase) -> int {
    match p {
        Phase::Init => 0,
        Phase::Setup => 1,
        Phase::Game => 2,
        Phase::Reward => 2,
    }
}

/// Ranks never go down along a trace of phase steps.
proof fn lemma_rank_monotone(trace: Seq<Phase>, i: int, j: int)
    requires
        forall|k: int| 0 <= k < trace.len() - 1 ==> #[trigger] phase_step(trace[k], trace[k + 1]),
        0 <= i <= j < trace.len(),
    ensures
        phase_rank(trace[i]) <= phase_rank(trace[j]),
    decreases j - i,
{
    if i < j {
        lemma_rank_monotone(trace, i, j - 1);
        let k = j - 1;
        assert(phase_step(trace[k], trace[k + 1]));
    }
}

/// The state machine ordering over any run of the simulation: starting
/// from `Init`, phases only ever advance in rank, so `Init` precedes
/// `Setup`, `Setup` is only ever left into `Game`, and once the first
/// round has started no phase outside `Game` and `Reward` is ever
/// reached again.
#[verifier::rlimit(50)]
pub proof fn lemma_phase_trace(trace: Seq<Phase>)
    requires
        trace.len() > 0,
        trace[0] == Phase::Init,
        forall|k: int| 0 <= k < trace.len() - 1 ==> #[trigger] phase_step(trace[k], trace[k + 1]),
    ensures
        forall|i: int, j: int|
            #![trigger trace[i], trace[j]]
            0 <= i <= j < trace.len() ==> phase_rank(trace[i]) <= phase_rank(trace[j]),
        forall|i: int|
            #![trigger trace[i], trace[i - 1]]
            0 < i < trace.len() && trace[i] == Phase::Setup ==> trace[i - 1] == Phase::Init
                || trace[i - 1] == Phase::Setup,
        forall|i: int|
            #![trigger trace[i], trace[i + 1]]
            0 <= i < trace.len() - 1 && trace[i] == Phase::Setup && trace[i + 1] != Phase::Setup
                ==> trace[i + 1] == Phase::Game,
        forall|i: int, j: int|
            #![trigger trace[i], trace[j]]
            0 <= i <= j < trace.len() && phase_rank(trace[i]) == 2 ==> phase_rank(trace[j]) == 2,
{
    assert forall|i: int, j: int|
        #![trigger trace[i], trace[j]]
        0 <= i <= j < trace.len() implies phase_rank(trace[i]) <= phase_rank(trace[j]) && (
    phase_rank(trace[i]) == 2 ==> phase_rank(trace[j]) == 2) by {
        lemma_rank_monotone(trace, i, j);
    }
    assert forall|i: int|
        #![trigger trace[i], trace[i - 1]]
        0 < i < trace.len() && trace[i] == Phase::Setup implies trace[i - 1] == Phase::Init || trace[
        i - 1] == Phase::Setup by {
        let k = i - 1;
        assert(phase_step(trace[k], trace[k + 1]));
    }
    assert forall|i: int|
        #![trigger trace[i], trace[i + 1]]
        0 <= i < trace.len() - 1 && trace[i] == Phase::Setup && trace[i + 1] != Phase::Setup implies
        trace[i + 1] == Phase::Game by {
        assert(phase_step(trace[i], trace[i + 1]));
    }
}

impl GameState {
    /// The hand part of one active-round step: the held food follows
    /// the pointer, a press picks up or routes a food, and the shelf
    /// reacts to the consumption. Without a press nothing happens
    /// beyond the held food tracking the pointer.
    #[verifier::spinoff_prover]
    fn step_hand(&mut self, pressed: bool) -> (eat: Option<EatEvent>)
        requires
            old(self).wf(),
            old(self).phase == Phase::Game,
            old(self).next_id <= u64::MAX - 8,
        ensures
            final(self).wf(),
            final(self).phase == Phase::Game,
            final(self).timers == old(self).timers,
            final(self).score == old(self).score,
            final(self).difficulty == old(self).difficulty,
            final(self).dude == old(self).dude,
            final(self).pointer == old(self).pointer,
            final(self).objectives@ == old(self).objectives@,
            final(self).ui == old(self).ui,
            final(self).pan == old(self).pan,
            eat matches Option::Some(e) ==> e.from.in_ptr_bounds() && e.flavor.wf(),
            !pressed ==> eat is None && final(self).hand == old(self).hand && (match old(self).hand.holding {
                Option::None => final(self).foods@ == old(self).foods@,
                Option::Some(id) => exists|i: int|
                    0 <= i < old(self).foods@.len() && (#[trigger] old(self).foods@[i]).id == id
                        && final(self).foods@ == old(self).foods@.update(
                        i,
                        Food { pos: old(self).pointer, ..old(self).foods@[i] },
                    ),
            }),
    {
        self.move_hand();
        let ghost s1 = *self;
        let (eat, refresh) = self.use_hand(pressed);
        proof {
            if eat is Some {
                lemma_eat_event_bounds(s1, eat->Some_0);
            }
        }
        if let Some(rev) = &refresh {
            self.run_shelf_refresh(rev);
        }
        eat
    }

    /// The consumption part of one active-round step: the customer
    /// chews (or gags on) what arrived and the flavor engine spawns the
    /// objective tokens of the event.
    #[verifier::spinoff_prover]
    fn step_eat(&mut self, eat: &Option<EatEvent>, delta: u64)
        requires
            old(self).wf(),
            old(self).in_round(),
            delta <= TIME_LIMIT,
            old(self).dude matches Option::Some(d) && d.cycles <= u32::MAX - 4,
            eat matches Option::Some(e) ==> e.from.in_ptr_bounds() && e.flavor.wf(),
        ensures
            final(self).wf(),
            final(self).phase == old(self).phase,
            final(self).timers == old(self).timers,
            final(self).score == old(self).score,
            final(self).difficulty == old(self).difficulty,
            final(self).pointer == old(self).pointer,
            final(self).hand == old(self).hand,
            final(self).foods@ == old(self).foods@,
            final(self).ui == old(self).ui,
            final(self).pan == old(self).pan,
            eat is None ==> final(self).objectives@ == old(self).objectives@,
    {
        match eat {
            Some(e) => {
                self.eat_anim(Some(e), delta);
                self.spawn_objectives(e);
            },
            None => {
                self.eat_anim(None, delta);
            },
        }
    }

    /// The world part of one active-round step: the cooking tick runs
    /// and the tokens keep moving. The stomach token count cannot grow
    /// here and per-taste pan counts cannot drop.
    #[verifier::spinoff_prover]
    fn step_world(&mut self, delta: u64)
        requires
            old(self).wf(),
            old(self).phase == Phase::Game,
            delta <= TIME_LIMIT,
        ensures
            final(self).wf(),
            final(self).phase == Phase::Game,
            final(self).timers == (MatchTimers {
                cook: old(self).timers.cook.spec_tick(delta),
                ..old(self).timers
            }),
            final(self).score == old(self).score,
            final(self).difficulty == old(self).difficulty,
            final(self).pointer == old(self).pointer,
            final(self).hand == old(self).hand,
            final(self).foods@ == old(self).foods@,
            final(self).ui == old(self).ui,
            count_zone(final(self).objectives@, ObjectiveZone::Stomach) <= count_zone(
                old(self).objectives@,
                ObjectiveZone::Stomach,
            ),
            forall|t: Taste|
                count_pan_taste(old(self).objectives@, t) <= #[trigger] count_pan_taste(
                    final(self).objectives@,
                    t,
                ),
    {
        self.cooking(delta);
        let ghost mid = self.objectives@;
        self.move_objs(delta);
        proof {
            assert forall|i: int|
                0 <= i < mid.len() implies (#[trigger] self.objectives@[i]).taste == (
            #[trigger] mid[i]).taste && self.objectives@[i].zone == mid[i].zone by {}
            lemma_counts_preserved(self.objectives@, mid);
        }
    }

    /// The clock part of one active-round step: the round clock
    /// advances, the display refreshes, and when the clock wraps the
    /// round closes into the reward phase, dropping whatever the hand
    /// still held and re-arming the pan tokens. Token counts by zone
    /// and taste are untouched here.
    #[verifier::spinoff_prover]
    fn game_advance(&mut self, delta: u64)
        requires
            old(self).wf(),
            old(self).phase == Phase::Game,
            delta <= TIME_LIMIT,
        ensures
            final(self).wf(),
            final(self).phase == if old(self).timers.game.spec_tick(delta).spec_finished() {
                Phase::Reward
            } else {
                Phase::Game
            },
            final(self).timers == (MatchTimers {
                game: old(self).timers.game.spec_tick(delta),
                ..old(self).timers
            }),
            final(self).score == old(self).score,
            final(self).difficulty == old(self).difficulty,
            final(self).pointer == old(self).pointer,
            count_zone(final(self).objectives@, ObjectiveZone::Stomach) == count_zone(
                old(self).objectives@,
                ObjectiveZone::Stomach,
            ),
            forall|t: Taste|
                #[trigger] count_pan_taste(final(self).objectives@, t) == count_pan_taste(
                    old(self).objectives@,
                    t,
                ),
            !old(self).timers.game.spec_tick(delta).spec_finished() ==> final(self).foods@ == old(self).foods@ && final(self).hand == old(self).hand,
    {
        let tr = self.match_timers(delta);
        self.update_ui();
        self.update_ui_timer();
        if matches!(tr, Some(Phase::Reward)) {
            self.clear_hand();
            let ghost mid = self.objectives@;
            self.ready_anim_objs();
            self.phase = Phase::Reward;
            proof {
                assert forall|i: int|
                    0 <= i < mid.len() implies (#[trigger] self.objectives@[i]).taste == (
                #[trigger] mid[i]).taste && self.objectives@[i].zone == mid[i].zone by {}
                lemma_counts_preserved(self.objectives@, mid);
            }
        }
    }

    /// One time-step of the active round: the hand, consumption, world
    /// and clock parts in pipeline order.
    fn tick_game(&mut self, input: &TickInput)
        requires
            old(self).wf(),
            old(self).room_to_grow(),
            old(self).phase == Phase::Game,
            input.delta_ms <= TIME_LIMIT,
        ensures
            final(self).wf(),
            final(self).phase == if old(self).timers.game.spec_tick(
                input.delta_ms,
            ).spec_finished() {
                Phase::Reward
            } else {
                Phase::Game
            },
            final(self).timers == (MatchTimers {
                game: old(self).timers.game.spec_tick(input.delta_ms),
                cook: old(self).timers.cook.spec_tick(input.delta_ms),
                reward: old(self).timers.reward,
            }),
            final(self).score == old(self).score,
            final(self).difficulty == old(self).difficulty,
            final(self).pointer == old(self).pointer,
            !input.pressed ==> count_zone(final(self).objectives@, ObjectiveZone::Stomach)
                <= count_zone(old(self).objectives@, ObjectiveZone::Stomach) && forall|t: Taste|
                count_pan_taste(old(self).objectives@, t) <= #[trigger] count_pan_taste(
                    final(self).objectives@,
                    t,
                ),
            (!input.pressed && !old(self).timers.game.spec_tick(input.delta_ms).spec_finished())
                ==> final(self).hand == old(self).hand && (match old(self).hand.holding {
                Option::None => final(self).foods@ == old(self).foods@,
                Option::Some(id) => exists|i: int|
                    0 <= i < old(self).foods@.len() && (#[trigger] old(self).foods@[i]).id == id
                        && final(self).foods@ == old(self).foods@.update(
                        i,
                        Food { pos: old(self).pointer, ..old(self).foods@[i] },
                    ),
            }),
    {
        let eat = self.step_hand(input.pressed);
        self.step_eat(&eat, input.delta_ms);
        self.step_world(input.delta_ms);
        self.game_advance(input.delta_ms);
    }

    /// The animation part of one reward step: the pan smash and chew
    /// animations run and the tokens keep moving; no token changes its
    /// taste or zone, and the smash fires exactly when the un-smashed
    /// pan timer runs out this tick.
    #[verifier::spinoff_prover]
    fn reward_anim(&mut self, delta: u64) -> (smash: bool)
        requires
            old(self).wf(),
            old(self).phase == Phase::Reward,
            delta <= TIME_LIMIT,
            old(self).dude matches Option::Some(d) && d.cycles <= u32::MAX - 4,
        ensures
            final(self).wf(),
            final(self).phase == Phase::Reward,
            final(self).timers == old(self).timers,
            final(self).score == old(self).score,
            final(self).difficulty == old(self).difficulty,
            final(self).pointer == old(self).pointer,
            final(self).foods@ == old(self).foods@,
            final(self).hand == old(self).hand,
            final(self).ui == old(self).ui,
            smash == (!old(self).pan.smashed && old(self).pan.timer.spec_tick(
                delta,
            ).just_finished),
            final(self).objectives@.len() == old(self).objectives@.len(),
            forall|i: int|
                0 <= i < old(self).objectives@.len() ==> (#[trigger] final(self).objectives@[i]).taste
                    == (#[trigger] old(self).objectives@[i]).taste && final(self).objectives@[i].zone
                    == old(self).objectives@[i].zone,
            old(self).dude matches Option::Some(d) ==> (final(self).dude matches Option::Some(d2)
                && d2.palate == d.palate),
    {
        let smash = self.pan_anim(delta);
        let ghost m1 = self.objectives@;
        self.eat_anim(None, delta);
        let ghost m2 = self.objectives@;
        self.move_objs(delta);
        proof {
            assert(m2 == m1);
            assert forall|i: int|
                0 <= i < m2.len() implies (#[trigger] self.objectives@[i]).taste == (
            #[trigger] m2[i]).taste && self.objectives@[i].zone == m2[i].zone by {}
        }
        smash.is_some()
    }

    /// The scoring part of one reward step: the reward clock advances,
    /// the display refreshes, a fired smash is tallied against the
    /// palate exactly as `tally` states (success iff the truncated pan
    /// sum meets the threshold, +10 on a win, -3 on a loss, every pan
    /// token cleared), and when the clock wraps a new round starts with
    /// a fresh customer.
    #[verifier::spinoff_prover]
    fn reward_close(&mut self, smash: bool, delta: u64)
        requires
            old(self).wf(),
            old(self).phase == Phase::Reward,
            delta <= TIME_LIMIT,
            old(self).score.successes < u32::MAX,
            old(self).score.losses < u32::MAX,
            i64::MIN + 3 <= old(self).difficulty.threshold <= i64::MAX - 10,
        ensures
            final(self).wf(),
            final(self).phase == if old(self).timers.reward.spec_tick(delta).spec_finished() {
                Phase::Game
            } else {
                Phase::Reward
            },
            final(self).timers == (MatchTimers {
                reward: old(self).timers.reward.spec_tick(delta),
                ..old(self).timers
            }),
            final(self).pointer == old(self).pointer,
            !smash ==> final(self).score == old(self).score && final(self).difficulty == old(self).difficulty,
            smash ==> (old(self).dude matches Option::Some(d) ==> {
                let win = trunc_milli(pan_sum(old(self).objectives@, d.palate)) >= old(self).difficulty.threshold;
                &&& win ==> final(self).score.successes == old(self).score.successes + 1 && final(self).score.losses == old(self).score.losses && final(self).difficulty.threshold
                    == old(self).difficulty.threshold + 10
                &&& !win ==> final(self).score.losses == old(self).score.losses + 1 && final(self).score.successes == old(self).score.successes && final(self).difficulty.threshold == old(self).difficulty.threshold - 3
            }),
            smash ==> count_zone(final(self).objectives@, ObjectiveZone::Pan) == 0,
            (smash && !old(self).timers.reward.spec_tick(delta).spec_finished()) ==> (old(self).dude matches Option::Some(d) ==> {
                let win = trunc_milli(pan_sum(old(self).objectives@, d.palate)) >= old(self).difficulty.threshold;
                &&& win ==> final(self).ui.win_visible
                &&& !win ==> final(self).ui.lose_visible
            }),
    {
        let tr = self.match_timers(delta);
        self.update_ui();
        self.update_ui_timer();
        let ghost before_tally = *self;
        self.tally(smash);
        proof {
            if smash {
                let filtered = self.objectives@;
                before_tally.objectives@.filter_lemma(
                    |o: Objective| o.zone != ObjectiveZone::Pan,
                );
                assert forall|i: int| 0 <= i < filtered.len() implies (
                #[trigger] filtered[i]).zone != ObjectiveZone::Pan by {}
                lemma_count_zone_absent(filtered, ObjectiveZone::Pan);
            }
        }
        if matches!(tr, Some(Phase::Game)) {
            self.pan_reset();
            self.reset_ui();
            self.spawn_dude();
        }
    }

    /// One time-step of the reward phase: the animation part, then the
    /// scoring part.
    fn tick_reward(&mut self, input: &TickInput)
        requires
            old(self).wf(),
            old(self).room_to_grow(),
            old(self).phase == Phase::Reward,
            input.delta_ms <= TIME_LIMIT,
        ensures
            final(self).wf(),
            final(self).phase == if old(self).timers.reward.spec_tick(
                input.delta_ms,
            ).spec_finished() {
                Phase::Game
            } else {
                Phase::Reward
            },
            final(self).timers == (MatchTimers {
                reward: old(self).timers.reward.spec_tick(input.delta_ms),
                ..old(self).timers
            }),
            final(self).pointer == old(self).pointer,
            !(!old(self).pan.smashed && old(self).pan.timer.spec_tick(
                input.delta_ms,
            ).just_finished) ==> final(self).score == old(self).score && final(self).difficulty
                == old(self).difficulty,
            (!old(self).pan.smashed && old(self).pan.timer.spec_tick(
                input.delta_ms,
            ).just_finished) ==> (old(self).dude matches Option::Some(d) ==> {
                let win = trunc_milli(pan_sum(old(self).objectives@, d.palate)) >= old(self).difficulty.threshold;
                &&& win ==> final(self).score.successes == old(self).score.successes + 1 && final(self).score.losses == old(self).score.losses && final(self).difficulty.threshold
                    == old(self).difficulty.threshold + 10
                &&& !win ==> final(self).score.losses == old(self).score.losses + 1 && final(self).score.successes == old(self).score.successes && final(self).difficulty.threshold == old(self).difficulty.threshold - 3
            }) && count_zone(final(self).objectives@, ObjectiveZone::Pan) == 0,
            (!old(self).pan.smashed && old(self).pan.timer.spec_tick(input.delta_ms).just_finished
                && !old(self).timers.reward.spec_tick(input.delta_ms).spec_finished()) ==> (old(self).dude matches Option::Some(d) ==> {
                let win = trunc_milli(pan_sum(old(self).objectives@, d.palate)) >= old(self).difficulty.threshold;
                &&& win ==> final(self).ui.win_visible
                &&& !win ==> final(self).ui.lose_visible
            }),
    {
        let ghost s0 = *self;
        let smash = self.reward_anim(input.delta_ms);
        proof {
            match old(self).dude {
                Option::Some(d) => {
                    lemma_pan_sum_preserved(self.objectives@, s0.objectives@, d.palate);
                },
                Option::None => {},
            }
        }
        self.reward_close(smash, input.delta_ms);
    }

    /// Runs one simulated time-step. Pointer tracking feeds the hand
    /// controller; the hand's consumption events feed the shelf and the
    /// flavor engine; the match clocks drive the phase transitions; the
    /// reward phase runs the smash animation and scores it. Exactly the
    /// transitions of `phase_step` can happen, each decided by its own
    /// subsystem; the running phase's clocks advance by the tick delta;
    /// the pointer follows the reported move; and the smash that fires
    /// when the un-smashed pan timer runs out in the reward phase is
    /// scored exactly as `tally` states.
    #[verifier::spinoff_prover]
    pub fn tick(&mut self, input: &TickInput)
        requires
            old(self).wf(),
            old(self).room_to_grow(),
            input.delta_ms <= TIME_LIMIT,
            input.pointer matches Option::Some(p) ==> p.in_ptr_bounds(),
        ensures
            final(self).wf(),
            phase_step(old(self).phase, final(self).phase),
            old(self).phase == Phase::Init ==> final(self).phase == Phase::Setup,
            old(self).phase == Phase::Setup ==> (final(self).phase == Phase::Game
                <==> input.assets_loaded),
            old(self).phase == Phase::Game ==> (final(self).phase == Phase::Reward
                <==> old(self).timers.game.spec_tick(input.delta_ms).spec_finished()),
            old(self).phase == Phase::Reward ==> (final(self).phase == Phase::Game
                <==> old(self).timers.reward.spec_tick(input.delta_ms).spec_finished()),
            old(self).phase != Phase::Reward ==> final(self).score == old(self).score
                && final(self).difficulty == old(self).difficulty,
            old(self).in_round() ==> final(self).in_round(),
            final(self).pointer == (match input.pointer {
                Option::Some(p) => p,
                Option::None => old(self).pointer,
            }),
            (old(self).phase == Phase::Init || old(self).phase == Phase::Setup) ==> final(self).timers == old(self).timers,
            old(self).phase == Phase::Game ==> final(self).timers == (MatchTimers {
                game: old(self).timers.game.spec_tick(input.delta_ms),
                cook: old(self).timers.cook.spec_tick(input.delta_ms),
                reward: old(self).timers.reward,
            }),
            old(self).phase == Phase::Reward ==> final(self).timers == (MatchTimers {
                reward: old(self).timers.reward.spec_tick(input.delta_ms),
                ..old(self).timers
            }),
            (old(self).phase == Phase::Game && !input.pressed) ==> count_zone(
                final(self).objectives@,
                ObjectiveZone::Stomach,
            ) <= count_zone(old(self).objectives@, ObjectiveZone::Stomach) && forall|t: Taste|
                count_pan_taste(old(self).objectives@, t) <= #[trigger] count_pan_taste(
                    final(self).objectives@,
                    t,
                ),
            (old(self).phase == Phase::Game && !input.pressed && !old(self).timers.game.spec_tick(
                input.delta_ms,
            ).spec_finished()) ==> final(self).hand == old(self).hand && (match old(self).hand.holding {
                Option::None => final(self).foods@ == old(self).foods@,
                Option::Some(id) => exists|i: int|
                    0 <= i < old(self).foods@.len() && (#[trigger] old(self).foods@[i]).id == id
                        && final(self).foods@ == old(self).foods@.update(
                        i,
                        Food {
                            pos: (match input.pointer {
                                Option::Some(p) => p,
                                Option::None => old(self).pointer,
                            }),
                            ..old(self).foods@[i]
                        },
                    ),
            }),
            (old(self).phase == Phase::Reward && !(!old(self).pan.smashed && old(self).pan.timer.spec_tick(input.delta_ms).just_finished)) ==> final(self).score == old(self).score && final(self).difficulty == old(self).difficulty,
            (old(self).phase == Phase::Reward && !old(self).pan.smashed && old(self).pan.timer.spec_tick(input.delta_ms).just_finished) ==> (old(self).dude matches Option::Some(d) ==> {
                let win = trunc_milli(pan_sum(old(self).objectives@, d.palate)) >= old(self).difficulty.threshold;
                &&& win ==> final(self).score.successes == old(self).score.successes + 1 && final(self).score.losses == old(self).score.losses && final(self).difficulty.threshold
                    == old(self).difficulty.threshold + 10
                &&& !win ==> final(self).score.losses == old(self).score.losses + 1 && final(self).score.successes == old(self).score.successes && final(self).difficulty.threshold == old(self).difficulty.threshold - 3
            }) && count_zone(final(self).objectives@, ObjectiveZone::Pan) == 0,
    {
        self.mouse_pos(input.pointer);
        if matches!(self.phase, Phase::Init) {
            self.info = crate::catalog::init();
            self.phase = Phase::Setup;
        } else if matches!(self.phase, Phase::Setup) {
            self.check_all(input.assets_loaded);
        } else if matches!(self.phase, Phase::Game) {
            self.tick_game(input);
        } else {
            self.tick_reward(input);
        }
    }
}

/// A consumption event handed out by the hand controller carries a food
/// that lived in a well-formed state, so its origin sits inside the
/// anchor bounds and its flavor is well-formed.
proof fn lemma_eat_event_bounds(pre: GameState, e: EatEvent)
    requires
        pre.wf(),
        exists|i: int|
            0 <= i < pre.foods@.len() && (#[trigger] pre.foods@[i]).pos == e.from
                && pre.foods@[i].info.flavor == e.flavor,
    ensures
        e.from.in_ptr_bounds(),
        e.flavor.wf(),
{
    let i = choose|i: int|
        0 <= i < pre.foods@.len() && (#[trigger] pre.foods@[i]).pos == e.from
            && pre.foods@[i].info.flavor == e.flavor;
    assert(pre.foods@[i].inv(pre.shelf_pos@.len() as int, pre.next_id));
}

} // verus!
