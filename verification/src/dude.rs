//! The customer: spawning a fresh one with a random palate and skin on
//! every round start, placing the preference indicator tokens, and the
//! chew/puke animation driven by consumption events.

use vstd::prelude::*;

verus! {

use crate::flavor::Flavor;
use crate::geom::{Vec2i, TIME_LIMIT};
use crate::rng::rand_range;
use crate::state::{AudioCue, Dude, EatEvent, GameState, Phase, PrefToken, SHELF_COUNT};
use crate::taste::{preference_of, taste_of, Preference, Taste};
use crate::timer::Timer;

/// Where the indicator row of a preference category starts; `Normal`
/// palate values get no indicator.
pub open spec fn pref_point(p: Preference) -> Option<Vec2i> {
    match p {
        Preference::Like => Option::Some(Vec2i { x: 150, y: 158 }),
        Preference::Dislike => Option::Some(Vec2i { x: 150, y: 94 }),
        Preference::Resist => Option::Some(Vec2i { x: 150, y: 30 }),
        Preference::Normal => Option::None,
    }
}

/// How many of the first `i` tastes fall in preference category `p`.
pub open spec fn pref_count_before(palate: Flavor, p: Preference, i: int) -> int
    decreases i,
{
    if i <= 0 {
        0
    } else {
        pref_count_before(palate, p, i - 1) + if preference_of(palate.value(taste_of(i - 1))) == p {
            1int
        } else {
            0int
        }
    }
}

/// The preference indicator tokens of a palate, in taste order: one
/// token per taste whose preference has an indicator row, placed along
/// that row by how many earlier tastes share the category.
pub open spec fn pref_tokens_upto(palate: Flavor, i: int) -> Seq<PrefToken>
    decreases i,
{
    if i <= 0 {
        Seq::empty()
    } else {
        let rest = pref_tokens_upto(palate, i - 1);
        let t = taste_of(i - 1);
        let p = preference_of(palate.value(t));
        match pref_point(p) {
            Option::None => rest,
            Option::Some(base) => rest.push(
                PrefToken {
                    taste: t,
                    preference: p,
                    pos: Vec2i {
                        x: (base.x + pref_count_before(palate, p, i - 1) * 48 + 64) as i64,
                        y: base.y,
                    },
                },
            ),
        }
    }
}

/// The full indicator token list of a palate.
pub open spec fn pref_tokens_spec(palate: Flavor) -> Seq<PrefToken> {
    pref_tokens_upto(palate, 8)
}

/// Whether the flavor carries a positive intensity on a taste the palate
/// dislikes.
pub open spec fn has_dislike_hit(palate: Flavor, fl: Flavor) -> bool {
    exists|t: Taste|
        preference_of(palate.value(t)) == Preference::Dislike && (#[trigger] fl.value(t)) > 0
}

/// How many of the first `i` tastes are disliked by the palate and
/// positive in the flavor; each one produces a puke cue.
pub open spec fn puke_hits_upto(palate: Flavor, fl: Flavor, i: int) -> int
    decreases i,
{
    if i <= 0 {
        0
    } else {
        puke_hits_upto(palate, fl, i - 1) + if preference_of(palate.value(taste_of(i - 1)))
            == Preference::Dislike && fl.value(taste_of(i - 1)) > 0 {
            1int
        } else {
            0int
        }
    }
}

/// Puke hit counts are non-negative and at most the tastes seen.
proof fn lemma_puke_hits_bounds(palate: Flavor, fl: Flavor, i: int)
    requires
        0 <= i,
    ensures
        0 <= puke_hits_upto(palate, fl, i) <= i,
    decreases i,
{
    if i > 0 {
        lemma_puke_hits_bounds(palate, fl, i - 1);
    }
}

/// The customer after swallowing one consumption event: the puke flag is
/// recomputed from the event's flavor, four chew cycles are queued and
/// the chew timer restarts.
pub open spec fn spec_feed(d: Dude, fl: Flavor) -> Dude {
    Dude {
        puking: has_dislike_hit(d.palate, fl),
        cycles: (d.cycles + 4) as u32,
        timer: Timer { elapsed_ms: 0, just_finished: false, ..d.timer },
        ..d
    }
}

/// The customer one chew step later, and whether a chew sound plays: the
/// chew timer advances, and each time it runs out with cycles queued the
/// mouth frame flips (or shows the puke frame), one cycle is consumed
/// and the timer restarts.
pub open spec fn spec_chew(d: Dude, delta: u64) -> (Dude, bool) {
    let t2 = d.timer.spec_tick(delta);
    if t2.spec_finished() && d.cycles > 0 {
        let frame2: u32 = if d.puking {
            if d.cycles == 1 {
                0
            } else {
                2
            }
        } else {
            if d.frame == 0 {
                1
            } else {
                0
            }
        };
        let gnam = !d.puking && d.frame == 0;
        (
            Dude {
                frame: frame2,
                cycles: (d.cycles - 1) as u32,
                timer: Timer { elapsed_ms: 0, just_finished: false, ..t2 },
                ..d
            },
            gnam,
        )
    } else {
        (Dude { timer: t2, ..d }, false)
    }
}

impl GameState {
    /// Builds the indicator token row layout for a palate.
    pub fn pref_tokens_of(palate: &Flavor) -> (r: Vec<PrefToken>)
        ensures
            r@ == pref_tokens_spec(*palate),
    {
        let mut r: Vec<PrefToken> = Vec::new();
        let mut like: i64 = 0;
        let mut dislike: i64 = 0;
        let mut resist: i64 = 0;
        let mut i: u32 = 0;
        while i < 8
            invariant
                i <= 8,
                r@ == pref_tokens_upto(*palate, i as int),
                like == pref_count_before(*palate, Preference::Like, i as int),
                dislike == pref_count_before(*palate, Preference::Dislike, i as int),
                resist == pref_count_before(*palate, Preference::Resist, i as int),
                0 <= like <= i,
                0 <= dislike <= i,
                0 <= resist <= i,
            decreases 8 - i,
        {
            let t = Taste::from_u32(i);
            let v = palate.get(t);
            let p = Preference::from_milli(v);
            match p {
                Preference::Like => {
                    r.push(
                        PrefToken { taste: t, preference: p, pos: Vec2i { x: 150 + like * 48 + 64, y: 158 } },
                    );
                    like = like + 1;
                },
                Preference::Dislike => {
                    r.push(
                        PrefToken { taste: t, preference: p, pos: Vec2i { x: 150 + dislike * 48 + 64, y: 94 } },
                    );
                    dislike = dislike + 1;
                },
                Preference::Resist => {
                    r.push(
                        PrefToken { taste: t, preference: p, pos: Vec2i { x: 150 + resist * 48 + 64, y: 30 } },
                    );
                    resist = resist + 1;
                },
                Preference::Normal => {},
            }
            i = i + 1;
        }
        r
    }

    /// Enters the active round with a fresh customer: the old customer
    /// and its indicator tokens are discarded, a new palate is drawn, a
    /// skin is picked at random, a random chew pace is rolled, and the
    /// indicator tokens of the new palate are placed.
    pub fn spawn_dude(&mut self)
        requires
            old(self).wf(),
            old(self).phase != Phase::Init,
            old(self).shelf_pos@.len() == SHELF_COUNT,
        ensures
            final(self).wf(),
            *final(self) == (GameState {
                phase: Phase::Game,
                dude: final(self).dude,
                pref_tokens: final(self).pref_tokens,
                ..*old(self)
            }),
            final(self).phase == Phase::Game,
            final(self).dude matches Option::Some(d) && {
                &&& d.cycles == 0
                &&& !d.puking
                &&& !d.yeah
                &&& d.frame == 0
                &&& d.skin < old(self).info.dude@.len()
                &&& d.timer.elapsed_ms == 0 && !d.timer.repeating && 80 <= d.timer.duration_ms
                    < 150 && !d.timer.just_finished
                &&& d.palate.wf()
                &&& forall|t: Taste| crate::flavor::is_palate_value(#[trigger] d.palate.value(t))
                &&& final(self).pref_tokens@ == pref_tokens_spec(d.palate)
            },
    {
        let palate = Flavor::gen();
        let skin_count = self.info.dude.len();
        let skin = rand_range(0, skin_count as i64) as usize;
        let pace = rand_range(80, 150) as u64;
        let d = Dude {
            timer: Timer::new(pace, false),
            cycles: 0,
            palate,
            puking: false,
            skin,
            yeah: false,
            frame: 0,
        };
        self.pref_tokens = Self::pref_tokens_of(&palate);
        self.dude = Some(d);
        self.phase = Phase::Game;
    }

    /// Feeds consumption events to the customer and advances the chew
    /// animation: a disliked flavor turns the face to puking with one
    /// puke cue per offending taste, every event queues four chew
    /// cycles, and each time the chew timer runs out a queued cycle is
    /// consumed, flipping the mouth frame with a chew cue on every
    /// second flip.
    pub fn eat_anim(&mut self, ev: Option<&EatEvent>, delta: u64)
        requires
            old(self).wf(),
            old(self).in_round(),
            delta <= TIME_LIMIT,
            old(self).dude matches Option::Some(d) && d.cycles <= u32::MAX - 4,
        ensures
            final(self).wf(),
            *final(self) == (GameState {
                dude: final(self).dude,
                cues: final(self).cues,
                ..*old(self)
            }),
            old(self).dude matches Option::Some(d0) && {
                let d1 = match ev {
                    Option::Some(e) => spec_feed(d0, e.flavor),
                    Option::None => d0,
                };
                let chew = spec_chew(d1, delta);
                &&& final(self).dude == Option::Some(chew.0)
                &&& final(self).cues@ == old(self).cues@ + (match ev {
                    Option::Some(e) => Seq::new(
                        puke_hits_upto(d0.palate, e.flavor, 8) as nat,
                        |q: int| AudioCue::Puke { skin: d0.skin },
                    ),
                    Option::None => Seq::<AudioCue>::empty(),
                }) + if chew.1 {
                    seq![AudioCue::Gnam { skin: d0.skin }]
                } else {
                    Seq::<AudioCue>::empty()
                }
            },
    {
        let ghost cues0 = self.cues@;
        let d0 = match &self.dude {
            Some(d) => *d,
            None => {
                proof {
                    assert(false);
                }
                return ;
            },
        };
        let mut d = d0;
        if let Some(e) = ev {
            d.puking = false;
            proof {
                assert(self.cues@ =~= cues0 + Seq::new(
                    puke_hits_upto(d0.palate, e.flavor, 0) as nat,
                    |q: int| AudioCue::Puke { skin: d0.skin },
                ));
            }
            let mut i: u32 = 0;
            while i < 8
                invariant
                    i <= 8,
                    d == (Dude {
                        puking: d.puking,
                        ..d0
                    }),
                    d.puking == exists|t: Taste|
                        t.index() < i && preference_of(d0.palate.value(t)) == Preference::Dislike
                            && (#[trigger] e.flavor.value(t)) > 0,
                    self.cues@ == cues0 + Seq::new(
                        puke_hits_upto(d0.palate, e.flavor, i as int) as nat,
                        |q: int| AudioCue::Puke { skin: d0.skin },
                    ),
                    *self == (GameState { cues: self.cues, ..*old(self) }),
                decreases 8 - i,
            {
                let t = Taste::from_u32(i);
                let val = e.flavor.get(t);
                let pref = d0.palate.get(t);
                if matches!(Preference::from_milli(pref), Preference::Dislike) && val > 0 {
                    d.puking = true;
                    self.cues.push(AudioCue::Puke { skin: d0.skin });
                    proof {
                        lemma_puke_hits_bounds(d0.palate, e.flavor, i as int);
                        lemma_puke_hits_bounds(d0.palate, e.flavor, i + 1 as int);
                        assert(taste_of(i as int).index() == i);
                        assert(self.cues@ =~= cues0 + Seq::new(
                            puke_hits_upto(d0.palate, e.flavor, i + 1 as int) as nat,
                            |q: int| AudioCue::Puke { skin: d0.skin },
                        ));
                    }
                } else {
                    proof {
                        lemma_puke_hits_bounds(d0.palate, e.flavor, i as int);
                        lemma_puke_hits_bounds(d0.palate, e.flavor, i + 1 as int);
                        assert forall|t2: Taste|
                            t2.index() < i + 1 && preference_of(d0.palate.value(t2))
                                == Preference::Dislike implies !((#[trigger] e.flavor.value(t2))
                            > 0) || d.puking by {
                            if t2.index() == i {
                                assert(t2 == taste_of(i as int));
                            }
                        }
                        assert(self.cues@ =~= cues0 + Seq::new(
                            puke_hits_upto(d0.palate, e.flavor, i + 1 as int) as nat,
                            |q: int| AudioCue::Puke { skin: d0.skin },
                        ));
                    }
                }
                i = i + 1;
            }
            d.cycles = d.cycles + 4;
            d.timer.reset();
            proof {
                if has_dislike_hit(d0.palate, e.flavor) {
                    let t = choose|t: Taste|
                        preference_of(d0.palate.value(t)) == Preference::Dislike && (
                        #[trigger] e.flavor.value(t)) > 0;
                    assert(t.index() < 8);
                }
                assert(d.puking == has_dislike_hit(d0.palate, e.flavor));
                assert(d == spec_feed(d0, e.flavor));
            }
        }
        let ghost d1 = d;
        let ghost cues1 = self.cues@;
        d.timer.tick(delta);
        if d.timer.finished() && d.cycles > 0 {
            if d.puking {
                d.frame = if d.cycles == 1 {
                    0
                } else {
                    2
                };
            } else {
                if d.frame == 0 {
                    self.cues.push(AudioCue::Gnam { skin: d0.skin });
                    d.frame = 1;
                } else {
                    d.frame = 0;
                }
            }
            d.cycles = d.cycles - 1;
            d.timer.reset();
        }
        self.dude = Some(d);
        proof {
            assert(d == spec_chew(d1, delta).0);
            if spec_chew(d1, delta).1 {
                assert(self.cues@ =~= cues1 + seq![AudioCue::Gnam { skin: d0.skin }]);
            } else {
                assert(self.cues@ =~= cues1 + Seq::<AudioCue>::empty());
            }
        }
    }
}

} // verus!
