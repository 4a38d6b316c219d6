use perfect_chef::flavor::Flavor;
use perfect_chef::geom::Vec2i;
use perfect_chef::state::{
    Dude, EatEvent, GameState, Objective, ObjectiveZone, Phase, Pan,
};
use perfect_chef::taste::Taste;
use perfect_chef::tick::TickInput;
use perfect_chef::timer::Timer;

fn input(delta_ms: u64) -> TickInput {
    TickInput { delta_ms, pointer: None, pressed: false, assets_loaded: true }
}

fn start_game() -> GameState {
    let mut s = GameState::new();
    s.tick(&input(16));
    s.tick(&input(16));
    assert_eq!(s.phase, Phase::Game);
    s
}

fn set_palate(s: &mut GameState, palate: Flavor) {
    let d = s.dude.unwrap();
    s.dude = Some(Dude { palate, ..d });
}

fn savory_heavy_palate() -> Flavor {
    Flavor {
        sweet: 1000,
        sour: 1000,
        salty: 1000,
        bitter: 1000,
        savory: 2000,
        spicy: 1000,
        cool: 1000,
        dry: 1000,
    }
}

fn leg_flavor() -> Flavor {
    Flavor {
        sweet: 1000,
        sour: 0,
        salty: 1000,
        bitter: 0,
        savory: 2000,
        spicy: 333,
        cool: 0,
        dry: 0,
    }
}

fn count_tokens(s: &GameState, zone: ObjectiveZone, taste: Taste) -> usize {
    s.objectives.iter().filter(|o| o.zone == zone && o.taste == taste).count()
}

fn pan_token(taste: Taste) -> Objective {
    let p = Vec2i { x: 0, y: -222 };
    Objective { taste, zone: ObjectiveZone::Pan, from: p, goto: p, pos: p, timer: Timer::new(500, false) }
}

#[test]
fn cooking_a_leg_spawns_the_expected_tokens_and_loses_at_thirty() {
    let mut s = start_game();
    set_palate(&mut s, savory_heavy_palate());
    s.difficulty.threshold = 30;

    let ev = EatEvent { from: Vec2i { x: 0, y: 0 }, flavor: leg_flavor(), to_zone: ObjectiveZone::Pan };
    s.spawn_objectives(&ev);

    assert_eq!(count_tokens(&s, ObjectiveZone::Pan, Taste::Savory), 2);
    assert_eq!(count_tokens(&s, ObjectiveZone::Pan, Taste::Salty), 1);
    assert_eq!(count_tokens(&s, ObjectiveZone::Pan, Taste::Sweet), 1);
    assert_eq!(count_tokens(&s, ObjectiveZone::Pan, Taste::Spicy), 0);
    assert_eq!(s.objectives.len(), 4);

    s.phase = Phase::Reward;
    s.tally(true);
    // sum = 2*2.0 + 1*1.0 + 1*1.0 = 6.0 < 30
    assert_eq!(s.score.losses, 1);
    assert_eq!(s.score.successes, 0);
    assert_eq!(s.difficulty.threshold, 27);
    assert!(s.ui.lose_visible && !s.ui.win_visible);
    assert_eq!(s.objectives.len(), 0);
}

#[test]
fn eating_routes_to_the_stomach_and_never_scores() {
    let mut s = start_game();
    set_palate(&mut s, savory_heavy_palate());
    s.difficulty.threshold = 1;

    let ev = EatEvent { from: Vec2i { x: 0, y: 0 }, flavor: leg_flavor(), to_zone: ObjectiveZone::Stomach };
    s.spawn_objectives(&ev);
    s.spawn_objectives(&ev);
    assert_eq!(count_tokens(&s, ObjectiveZone::Stomach, Taste::Savory), 4);
    assert_eq!(s.objectives.len(), 8);

    s.phase = Phase::Reward;
    s.tally(true);
    // no pan tokens: sum = 0 < 1, however many stomach tokens there are
    assert_eq!(s.score.losses, 1);
    assert_eq!(s.difficulty.threshold, -2);
    // stomach tokens survive the smash
    assert_eq!(s.objectives.len(), 8);
}

#[test]
fn per_taste_contribution_is_count_times_preference() {
    let mut s = start_game();
    set_palate(&mut s, savory_heavy_palate());
    s.difficulty.threshold = 6;
    for _ in 0..3 {
        s.objectives.push(pan_token(Taste::Savory));
    }
    s.phase = Phase::Reward;
    s.tally(true);
    // 3 savory tokens at preference 2.0: sum = 6.0 >= 6
    assert_eq!(s.score.successes, 1);
    assert_eq!(s.difficulty.threshold, 16);
    assert!(s.ui.win_visible);
}

#[test]
fn disliked_tokens_subtract_from_the_sum() {
    let mut s = start_game();
    let mut palate = savory_heavy_palate();
    palate.sweet = -1000;
    set_palate(&mut s, palate);
    s.difficulty.threshold = 0;
    s.objectives.push(pan_token(Taste::Sweet));
    s.phase = Phase::Reward;
    s.tally(true);
    // sum = -1.0 < 0
    assert_eq!(s.score.losses, 1);
    assert_eq!(s.difficulty.threshold, -3);
}

#[test]
fn thresholds_adjust_without_any_floor() {
    let mut s = start_game();
    set_palate(&mut s, savory_heavy_palate());
    s.phase = Phase::Reward;
    s.difficulty.threshold = -5;
    s.tally(true);
    // empty pan: sum = 0 >= -5 counts as a success
    assert_eq!(s.score.successes, 1);
    assert_eq!(s.difficulty.threshold, 5);
    s.ui.win_visible = false;
    s.difficulty.threshold = -100;
    s.tally(true);
    assert_eq!(s.score.successes, 2);
    assert_eq!(s.difficulty.threshold, -90);
}

#[test]
fn smash_resets_the_chew_cycles() {
    let mut s = start_game();
    set_palate(&mut s, savory_heavy_palate());
    let d = s.dude.unwrap();
    s.dude = Some(Dude { cycles: 7, ..d });
    s.phase = Phase::Reward;
    s.tally(true);
    assert_eq!(s.dude.unwrap().cycles, 0);
}

#[test]
fn pan_animation_eases_fires_once_and_rearms() {
    let mut s = start_game();
    s.phase = Phase::Reward;
    s.pan = Pan {
        from: Vec2i { x: 0, y: -222 },
        goto: Vec2i { x: 0, y: 158 },
        pos: Vec2i { x: 0, y: -222 },
        frame: 0,
        timer: Timer::new(2000, false),
        smashed: false,
    };
    let smash = s.pan_anim(500);
    assert!(smash.is_none());
    // eased fraction at a quarter of the period: (500^5 / 10^12) = 31 milli
    assert_eq!(s.pan.pos, Vec2i { x: 0, y: -222 + 380 * 31 / 1000 });
    assert_eq!(s.pan.frame, 1);

    let smash = s.pan_anim(500);
    assert!(smash.is_none());
    // halfway: the ease clamps at 1.0 and the pan sits on the mouth
    assert_eq!(s.pan.pos, Vec2i { x: 0, y: 158 });
    assert_eq!(s.pan.frame, 2);
    assert!(s.dude.unwrap().yeah == false);

    let smash = s.pan_anim(600);
    assert!(smash.is_none());
    assert!(s.dude.unwrap().yeah, "past the halfway mark the customer cheers");

    let smash = s.pan_anim(400);
    assert!(smash.is_some(), "the smash fires when the timer runs out");
    assert!(s.pan.smashed);
    assert_eq!(s.pan.pos, Vec2i { x: 0, y: -222 });

    let smash = s.pan_anim(2000);
    assert!(smash.is_none(), "the smash fires only once per reward phase");

    s.pan_reset();
    assert!(!s.pan.smashed);
}

#[test]
fn pan_tokens_follow_the_flying_pan() {
    let mut s = start_game();
    s.phase = Phase::Reward;
    s.objectives.push(pan_token(Taste::Cool));
    let mut stomach_token = pan_token(Taste::Dry);
    stomach_token.zone = ObjectiveZone::Stomach;
    let stomach_goto = stomach_token.goto;
    s.objectives.push(stomach_token);
    s.pan_anim(1000);
    assert_eq!(s.objectives[0].goto, s.pan.pos);
    assert_eq!(s.objectives[1].goto, stomach_goto);
}
