//! The shared simulation state: every entity, timer, counter and anchor
//! of one session, together with the well-formedness invariant that all
//! subsystems preserve.

use vstd::prelude::*;

verus! {

use crate::catalog::{FoodInfo, Info};
use crate::flavor::{Flavor, is_palate_value};
use crate::geom::Vec2i;
use crate::taste::{Preference, Taste};
use crate::timer::{MatchTimers, Timer};

/// Number of shelf slots.
pub const SHELF_COUNT: usize = 3;

/// Defensive cap on the number of live objective tokens.
pub const MAX_OBJECTIVES: usize = 4096;

/// Flight time of an objective token, in milliseconds.
pub const OBJ_MS: u64 = 500;

/// Duration of the pan smash animation, in milliseconds.
pub const PAN_MS: u64 = 2000;

/// Squared pickup radius around the pointer.
pub const PICKUP_RADIUS_SQ: i64 = 10_000;

/// Squared drop radius around the mouth.
pub const MOUTH_RADIUS_SQ: i64 = 22_500;

/// Squared drop radius around the pan.
pub const PAN_RADIUS_SQ: i64 = 40_000;

/// The phase the session is in.
#[derive(Clone, Copy, PartialEq, Eq, Structural, Debug)]
pub enum Phase {
    Init,
    Setup,
    Game,
    Reward,
}

/// The lifecycle state of a food entity.
#[derive(Clone, Copy, PartialEq, Eq, Structural, Debug)]
pub enum FoodState {
    Shelved,
    Held,
    Eaten,
    Cooking,
}

/// The accumulation zone an objective token flies to.
#[derive(Clone, Copy, PartialEq, Eq, Structural, Debug)]
pub enum ObjectiveZone {
    Stomach,
    Pan,
}

/// A live food entity on a shelf or in the hand.
#[derive(Debug)]
pub struct Food {
    pub id: u64,
    pub state: FoodState,
    pub shelf: usize,
    pub info: FoodInfo,
    pub pos: Vec2i,
}

impl Food {
    /// A live food is shelved or held, carries a well-formed catalog
    /// entry, points at a real shelf and sits inside the world bounds.
    pub open spec fn inv(self, shelf_count: int, next_id: u64) -> bool {
        &&& self.id < next_id
        &&& (self.state == FoodState::Shelved || self.state == FoodState::Held)
        &&& self.shelf < shelf_count
        &&& self.info.wf()
        &&& self.pos.in_ptr_bounds()
    }
}

/// A transient token carrying one unit of one taste toward a zone.
#[derive(Clone, Copy, PartialEq, Eq, Structural, Debug)]
pub struct Objective {
    pub taste: Taste,
    pub zone: ObjectiveZone,
    pub from: Vec2i,
    pub goto: Vec2i,
    pub pos: Vec2i,
    pub timer: Timer,
}

impl Objective {
    /// Tokens fly on a one-shot timer of fixed duration and stay inside
    /// the world bounds.
    pub open spec fn inv(self) -> bool {
        &&& self.timer.wf()
        &&& !self.timer.repeating
        &&& self.timer.duration_ms == OBJ_MS
        &&& self.from.in_bounds()
        &&& self.goto.in_bounds()
        &&& self.pos.in_bounds()
    }
}

/// The current customer.
#[derive(Clone, Copy, PartialEq, Eq, Structural, Debug)]
pub struct Dude {
    pub timer: Timer,
    pub cycles: u32,
    pub palate: Flavor,
    pub puking: bool,
    pub skin: usize,
    pub yeah: bool,
    pub frame: u32,
}

impl Dude {
    /// The palate holds generated palate samples and the chew timer is a
    /// well-formed one-shot.
    pub open spec fn inv(self, dude_count: int) -> bool {
        &&& self.palate.wf()
        &&& forall|t: Taste| is_palate_value(#[trigger] self.palate.value(t))
        &&& self.timer.wf()
        &&& !self.timer.repeating
        &&& self.skin < dude_count
    }
}

/// The pan, with its smash animation state.
#[derive(Clone, Copy, PartialEq, Eq, Structural, Debug)]
pub struct Pan {
    pub from: Vec2i,
    pub goto: Vec2i,
    pub pos: Vec2i,
    pub frame: u32,
    pub timer: Timer,
    pub smashed: bool,
}

impl Pan {
    pub open spec fn inv(self) -> bool {
        &&& self.timer.wf()
        &&& !self.timer.repeating
        &&& self.timer.duration_ms == PAN_MS
        &&& self.from.in_ptr_bounds()
        &&& self.goto.in_ptr_bounds()
        &&& self.pos.in_ptr_bounds()
    }
}

/// The drag controller: the id of the food being held, if any.
#[derive(Clone, Copy, PartialEq, Eq, Structural, Debug)]
pub struct Hand {
    pub holding: Option<u64>,
}

impl Default for Hand {
    /// An empty hand.
    fn default() -> (r: Hand)
        ensures
            r.holding is None,
    {
        Hand { holding: None }
    }
}

/// Session-wide win and loss counters.
#[derive(Clone, Copy, PartialEq, Eq, Structural, Debug)]
pub struct Score {
    pub successes: u32,
    pub losses: u32,
}

impl Default for Score {
    /// No rounds played yet.
    fn default() -> (r: Score)
        ensures
            r.successes == 0 && r.losses == 0,
    {
        Score { successes: 0, losses: 0 }
    }
}

/// The threshold a pan-smash sum must reach to count as a success.
#[derive(Clone, Copy, PartialEq, Eq, Structural, Debug)]
pub struct Difficulty {
    pub threshold: i64,
}

/// Asks the shelf subsystem to refill: with `clear` set, shelved foods
/// survive and only empty slots restock; without it, every shelved food
/// is discarded and every slot restocks.
#[derive(Clone, Copy, PartialEq, Eq, Structural, Debug)]
pub struct RefreshShelfEvent {
    pub clear: bool,
}

/// Asks for one shelf slot to be restocked.
#[derive(Clone, Copy, PartialEq, Eq, Structural, Debug)]
pub struct RestockShelfEvent {
    pub shelf: usize,
}

/// A consumption event: a flavor leaves `from` toward a zone.
#[derive(Clone, Copy, PartialEq, Eq, Structural, Debug)]
pub struct EatEvent {
    pub from: Vec2i,
    pub flavor: Flavor,
    pub to_zone: ObjectiveZone,
}

/// The pan smash completed and the pan tokens are ready to score.
#[derive(Clone, Copy, PartialEq, Eq, Structural, Debug)]
pub struct PanSmashEvent {}

/// A fire-and-forget audio cue for the embedding program, naming the
/// customer skin whose sound set to use.
#[derive(Clone, Copy, PartialEq, Eq, Structural, Debug)]
pub enum AudioCue {
    Gnam { skin: usize },
    Puke { skin: usize },
    Yeah { skin: usize },
    Ambient,
}

/// A preference indicator token placed beside the customer.
#[derive(Clone, Copy, PartialEq, Eq, Structural, Debug)]
pub struct PrefToken {
    pub taste: Taste,
    pub preference: Preference,
    pub pos: Vec2i,
}

/// The display state the embedding program renders from.
#[derive(Clone, Copy, PartialEq, Eq, Structural, Debug)]
pub struct UiState {
    pub win_visible: bool,
    pub lose_visible: bool,
    pub stomach_count: usize,
    pub pan_count: usize,
    pub shown_threshold: i64,
    pub timer_cutoff: u64,
}

impl Default for UiState {
    /// Everything hidden and zeroed.
    fn default() -> (r: UiState)
        ensures
            r == (UiState {
                win_visible: false,
                lose_visible: false,
                stomach_count: 0,
                pan_count: 0,
                shown_threshold: 0,
                timer_cutoff: 0,
            }),
    {
        UiState {
            win_visible: false,
            lose_visible: false,
            stomach_count: 0,
            pan_count: 0,
            shown_threshold: 0,
            timer_cutoff: 0,
        }
    }
}

/// The whole simulation state of one session.
pub struct GameState {
    pub phase: Phase,
    pub info: Info,
    pub foods: Vec<Food>,
    pub objectives: Vec<Objective>,
    pub dude: Option<Dude>,
    pub pref_tokens: Vec<PrefToken>,
    pub hand: Hand,
    pub pan: Pan,
    pub timers: MatchTimers,
    pub score: Score,
    pub difficulty: Difficulty,
    pub pointer: Vec2i,
    pub next_id: u64,
    pub shelf_pos: Vec<Vec2i>,
    pub mouth: Vec2i,
    pub stomach_anchor: Vec2i,
    pub dude_point: Vec2i,
    pub ui: UiState,
    pub cues: Vec<AudioCue>,
}

impl GameState {
    /// Whether the session is in a round (active or reward) phase.
    pub open spec fn in_round(self) -> bool {
        self.phase == Phase::Game || self.phase == Phase::Reward
    }

    /// Every food satisfies its own invariant and ids are unique.
    pub open spec fn foods_wf(self) -> bool {
        &&& forall|i: int|
            0 <= i < self.foods@.len() ==> (#[trigger] self.foods@[i]).inv(
                self.shelf_pos@.len() as int,
                self.next_id,
            )
        &&& forall|i: int, j: int|
            0 <= i < self.foods@.len() && 0 <= j < self.foods@.len() && i != j
                ==> (#[trigger] self.foods@[i]).id != (#[trigger] self.foods@[j]).id
    }

    /// No two shelved foods share a shelf slot.
    pub open spec fn shelves_distinct(self) -> bool {
        forall|i: int, j: int|
            0 <= i < self.foods@.len() && 0 <= j < self.foods@.len() && i != j
                && (#[trigger] self.foods@[i]).state == FoodState::Shelved
                && (#[trigger] self.foods@[j]).state == FoodState::Shelved
                ==> self.foods@[i].shelf != self.foods@[j].shelf
    }

    /// The hand agrees with the food states: an empty hand means no food
    /// is held, and a holding hand names the one held food.
    pub open spec fn hand_wf(self) -> bool {
        match self.hand.holding {
            Option::None => forall|i: int|
                0 <= i < self.foods@.len() ==> (#[trigger] self.foods@[i]).state
                    != FoodState::Held,
            Option::Some(id) => {
                &&& exists|i: int|
                    0 <= i < self.foods@.len() && (#[trigger] self.foods@[i]).id == id
                        && self.foods@[i].state == FoodState::Held
                &&& forall|i: int|
                    0 <= i < self.foods@.len() && (#[trigger] self.foods@[i]).state
                        == FoodState::Held ==> self.foods@[i].id == id
            },
        }
    }

    /// Objective tokens are bounded in number and each is well-formed.
    pub open spec fn objectives_wf(self) -> bool {
        &&& self.objectives@.len() <= MAX_OBJECTIVES
        &&& forall|i: int| 0 <= i < self.objectives@.len() ==> (#[trigger] self.objectives@[i]).inv()
    }

    /// Exactly the round phases have a live customer.
    pub open spec fn dude_wf(self) -> bool {
        &&& self.in_round() <==> self.dude is Some
        &&& match self.dude {
            Option::Some(d) => d.inv(self.info.dude@.len() as int),
            Option::None => true,
        }
    }

    /// The shelf slots: inside the anchor bounds, and exactly
    /// `SHELF_COUNT` of them once a round has started.
    pub open spec fn shelves_wf(self) -> bool {
        &&& self.shelf_pos@.len() <= 8
        &&& self.in_round() ==> self.shelf_pos@.len() == SHELF_COUNT
        &&& forall|i: int|
            0 <= i < self.shelf_pos@.len() ==> (#[trigger] self.shelf_pos@[i]).in_ptr_bounds()
    }

    /// Anchors sit inside the tighter pointer bounds so that jittered
    /// spawns around them stay inside the world.
    pub open spec fn anchors_wf(self) -> bool {
        &&& self.mouth.in_ptr_bounds()
        &&& self.stomach_anchor.in_ptr_bounds()
        &&& self.dude_point.in_ptr_bounds()
        &&& self.pointer.in_ptr_bounds()
    }

    /// The catalogs are filled from the moment loading starts.
    pub open spec fn info_wf(self) -> bool {
        self.phase != Phase::Init ==> self.info.wf()
    }

    /// Before a round starts there are no entities yet.
    pub open spec fn pre_round_empty(self) -> bool {
        !self.in_round() ==> self.foods@.len() == 0 && self.objectives@.len() == 0
            && self.hand.holding is None
    }

    /// The whole state invariant.
    pub open spec fn wf(self) -> bool {
        &&& self.foods_wf()
        &&& self.shelves_distinct()
        &&& self.hand_wf()
        &&& self.objectives_wf()
        &&& self.dude_wf()
        &&& self.shelves_wf()
        &&& self.anchors_wf()
        &&& self.info_wf()
        &&& self.pre_round_empty()
        &&& self.pan.inv()
        &&& self.timers.wf()
    }

    /// Room for the counters and ids one tick may grow: the score, the
    /// difficulty adjustment, the customer's chew cycles and fresh food
    /// ids all stay clear of their machine limits.
    pub open spec fn room_to_grow(self) -> bool {
        &&& self.score.successes < u32::MAX
        &&& self.score.losses < u32::MAX
        &&& i64::MIN + 3 <= self.difficulty.threshold <= i64::MAX - 10
        &&& self.next_id <= u64::MAX - 8
        &&& match self.dude {
            Option::Some(d) => d.cycles <= u32::MAX - 4,
            Option::None => true,
        }
    }

    /// A fresh session, waiting for its first tick.
    pub fn new() -> (r: GameState)
        ensures
            r.phase == Phase::Init,
            r.foods@.len() == 0,
            r.objectives@.len() == 0,
            r.dude is None,
            r.hand.holding is None,
            r.score.successes == 0 && r.score.losses == 0,
            r.difficulty.threshold == 30,
            r.next_id == 0,
            r.cues@.len() == 0,
            r.pref_tokens@.len() == 0,
            r.wf(),
            r.room_to_grow(),
    {
        GameState {
            phase: Phase::Init,
            info: Info { food: Vec::new(), dude: Vec::new() },
            foods: Vec::new(),
            objectives: Vec::new(),
            dude: None,
            pref_tokens: Vec::new(),
            hand: Hand::default(),
            pan: Pan {
                from: Vec2i { x: 0, y: -222 },
                goto: Vec2i { x: 0, y: 158 },
                pos: Vec2i { x: 0, y: -222 },
                frame: 0,
                timer: Timer::new(PAN_MS, false),
                smashed: false,
            },
            timers: MatchTimers::default(),
            score: Score::default(),
            difficulty: Difficulty { threshold: 30 },
            pointer: Vec2i { x: 0, y: 0 },
            next_id: 0,
            shelf_pos: Vec::new(),
            mouth: Vec2i { x: 0, y: 158 },
            stomach_anchor: Vec2i { x: 0, y: 0 },
            dude_point: Vec2i { x: 0, y: 94 },
            ui: UiState::default(),
            cues: Vec::new(),
        }
    }

    /// At no point do two food entities sit in the hand at once: in any
    /// well-formed state, no two distinct foods are both `Held`.
    pub proof fn lemma_at_most_one_held(self)
        requires
            self.wf(),
        ensures
            forall|i: int, j: int|
                0 <= i < self.foods@.len() && 0 <= j < self.foods@.len() && i != j ==> !((
                #[trigger] self.foods@[i]).state == FoodState::Held && (
                #[trigger] self.foods@[j]).state == FoodState::Held),
    {
        assert forall|i: int, j: int|
            0 <= i < self.foods@.len() && 0 <= j < self.foods@.len() && i != j implies !((
        #[trigger] self.foods@[i]).state == FoodState::Held && (#[trigger] self.foods@[j]).state
            == FoodState::Held) by {
            if self.foods@[i].state == FoodState::Held && self.foods@[j].state == FoodState::Held {
                match self.hand.holding {
                    Option::Some(id) => {
                        assert(self.foods@[i].id == id && self.foods@[j].id == id);
                    },
                    Option::None => {},
                }
            }
        }
    }

    /// Tracks the pointer: a reported move replaces the world-space
    /// pointer position, no report leaves it where it was.
    pub fn mouse_pos(&mut self, moved: Option<Vec2i>)
        requires
            match moved {
                Option::Some(p) => p.in_ptr_bounds(),
                Option::None => true,
            },
        ensures
            final(self).pointer == match moved {
                Option::Some(p) => p,
                Option::None => old(self).pointer,
            },
            *final(self) == (GameState { pointer: final(self).pointer, ..*old(self) }),
    {
        if let Some(p) = moved {
            self.pointer = p;
        }
    }
}

} // verus!
