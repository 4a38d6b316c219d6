use perfect_chef::catalog::{audio_names, load_all};
use perfect_chef::flavor::Flavor;
use perfect_chef::geom::Vec2i;
use perfect_chef::state::{
    AudioCue, Dude, EatEvent, GameState, ObjectiveZone, Phase,
};
use perfect_chef::taste::{Preference, Taste};
use perfect_chef::tick::TickInput;

fn input(delta_ms: u64) -> TickInput {
    TickInput { delta_ms, pointer: None, pressed: false, assets_loaded: true }
}

fn start_game() -> GameState {
    let mut s = GameState::new();
    s.tick(&input(16));
    s.tick(&input(16));
    assert_eq!(s.phase, Phase::Game);
    s
}

#[test]
fn objectives_fly_and_then_rest_on_their_target() {
    let mut s = start_game();
    let ev = EatEvent {
        from: Vec2i { x: 100, y: 100 },
        flavor: Flavor { sweet: 1000, ..Flavor::default() },
        to_zone: ObjectiveZone::Stomach,
    };
    s.spawn_objectives(&ev);
    assert_eq!(s.objectives.len(), 1);
    assert_eq!(s.objectives[0].pos, ev.from);
    let goto = s.objectives[0].goto;
    s.move_objs(250);
    let halfway = s.objectives[0].pos;
    assert_ne!(halfway, goto);
    s.move_objs(250);
    assert_eq!(s.objectives[0].pos, goto);
    s.move_objs(250);
    assert_eq!(s.objectives[0].pos, goto);
}

#[test]
fn spawn_jitter_stays_near_the_anchors() {
    let mut s = start_game();
    let ev = EatEvent {
        from: Vec2i { x: -50, y: 70 },
        flavor: Flavor { cool: 3000, dry: 2000, ..Flavor::default() },
        to_zone: ObjectiveZone::Pan,
    };
    s.spawn_objectives(&ev);
    assert_eq!(s.objectives.len(), 5);
    for o in &s.objectives {
        assert!((o.from.x - ev.from.x).abs() <= 100);
        assert!((o.from.y - ev.from.y).abs() <= 100);
        assert!((o.goto.x - s.pan.pos.x).abs() <= 150);
        assert!(-60 <= o.goto.y - s.pan.pos.y && o.goto.y - s.pan.pos.y < 80);
    }
}

#[test]
fn a_disliked_flavor_turns_the_customer_green() {
    let mut s = start_game();
    let d = s.dude.unwrap();
    let mut palate = d.palate;
    palate.spicy = -1000;
    palate.sweet = 1000;
    s.dude = Some(Dude { palate, cycles: 0, puking: false, ..d });
    s.cues.clear();
    let ev = EatEvent {
        from: Vec2i { x: 0, y: 0 },
        flavor: Flavor { spicy: 2000, ..Flavor::default() },
        to_zone: ObjectiveZone::Stomach,
    };
    s.eat_anim(Some(&ev), 0);
    let d2 = s.dude.unwrap();
    assert!(d2.puking);
    assert_eq!(d2.cycles, 4);
    assert!(s.cues.iter().any(|c| matches!(c, AudioCue::Puke { .. })));
}

#[test]
fn a_liked_flavor_chews_happily() {
    let mut s = start_game();
    let d = s.dude.unwrap();
    let mut palate = d.palate;
    palate.sweet = 2000;
    s.dude = Some(Dude { palate, cycles: 0, puking: false, frame: 0, ..d });
    s.cues.clear();
    let ev = EatEvent {
        from: Vec2i { x: 0, y: 0 },
        flavor: Flavor { sweet: 1000, ..Flavor::default() },
        to_zone: ObjectiveZone::Stomach,
    };
    s.eat_anim(Some(&ev), 0);
    let d2 = s.dude.unwrap();
    assert!(!d2.puking);
    assert_eq!(d2.cycles, 4);
    // run the chew timer out: one cycle is consumed and the mouth opens
    let pace = d2.timer.duration_ms;
    s.eat_anim(None, pace);
    let d3 = s.dude.unwrap();
    assert_eq!(d3.cycles, 3);
    assert_eq!(d3.frame, 1);
    assert!(s.cues.iter().any(|c| matches!(c, AudioCue::Gnam { .. })));
}

#[test]
fn preference_tokens_line_up_per_category() {
    let mut s = start_game();
    let d = s.dude.unwrap();
    let palate = Flavor {
        sweet: 2000,   // like
        sour: -1000,   // dislike
        salty: 0,      // resist
        bitter: 1000,  // normal: no token
        savory: 2000,  // like
        spicy: 1000,
        cool: 1000,
        dry: 1000,
    };
    s.dude = Some(Dude { palate, ..d });
    s.pref_tokens = GameState::pref_tokens_of(&palate);
    assert_eq!(s.pref_tokens.len(), 4);
    let likes: Vec<_> =
        s.pref_tokens.iter().filter(|t| t.preference == Preference::Like).collect();
    assert_eq!(likes.len(), 2);
    assert_eq!(likes[0].taste, Taste::Sweet);
    assert_eq!(likes[0].pos, Vec2i { x: 150 + 64, y: 158 });
    assert_eq!(likes[1].taste, Taste::Savory);
    assert_eq!(likes[1].pos, Vec2i { x: 150 + 48 + 64, y: 158 });
    let dislikes: Vec<_> =
        s.pref_tokens.iter().filter(|t| t.preference == Preference::Dislike).collect();
    assert_eq!(dislikes.len(), 1);
    assert_eq!(dislikes[0].pos, Vec2i { x: 150 + 64, y: 94 });
    let resists: Vec<_> =
        s.pref_tokens.iter().filter(|t| t.preference == Preference::Resist).collect();
    assert_eq!(resists.len(), 1);
    assert_eq!(resists[0].taste, Taste::Salty);
}

#[test]
fn ui_readouts_count_the_zones() {
    let mut s = start_game();
    let ev = EatEvent {
        from: Vec2i { x: 0, y: 0 },
        flavor: Flavor { sweet: 2000, sour: 1000, ..Flavor::default() },
        to_zone: ObjectiveZone::Stomach,
    };
    s.spawn_objectives(&ev);
    let ev2 = EatEvent { to_zone: ObjectiveZone::Pan, ..ev };
    s.spawn_objectives(&ev2);
    s.difficulty.threshold = 42;
    s.update_ui();
    assert_eq!(s.ui.stomach_count, 3);
    assert_eq!(s.ui.pan_count, 3);
    assert_eq!(s.ui.shown_threshold, 42);
}

#[test]
fn ui_timer_cutoff_counts_spent_tenths() {
    let mut s = start_game();
    s.timers.game.tick(4_500);
    s.update_ui_timer();
    assert_eq!(s.ui.timer_cutoff, 4);
}

#[test]
fn asset_name_lists_cover_catalog_and_tastes() {
    let mut s = GameState::new();
    s.tick(&input(16));
    let groups = load_all(&s.info);
    assert_eq!(groups.len(), 20 + 17);
    assert_eq!(groups[0], vec!["dude", "dude-gnam", "dude-puke"]);
    assert_eq!(groups[3], vec!["pan", "pan-anim1", "pan-anim2"]);
    assert_eq!(groups[11], vec!["background"]);
    assert_eq!(groups[12], vec!["leg"]);
    assert_eq!(groups[28], vec!["onion"]);
    assert_eq!(groups[29], vec!["Sweet"]);
    assert_eq!(groups[36], vec!["Dry"]);
    let audio = audio_names();
    assert_eq!(audio.len(), 10);
    assert_eq!(audio[0], "lol");
    assert_eq!(audio[9], "ale-yeah");
}

#[test]
fn cooking_never_adds_stomach_tokens_and_keeps_pan_tastes() {
    let mut s = start_game();
    let ev = EatEvent {
        from: Vec2i { x: 0, y: 0 },
        flavor: Flavor { cool: 3000, ..Flavor::default() },
        to_zone: ObjectiveZone::Pan,
    };
    s.spawn_objectives(&ev);
    let ev2 = EatEvent { to_zone: ObjectiveZone::Stomach, ..ev };
    s.spawn_objectives(&ev2);
    let stomach_before =
        s.objectives.iter().filter(|o| o.zone == ObjectiveZone::Stomach).count();
    for _ in 0..30 {
        s.cooking(1_000);
    }
    let stomach_after =
        s.objectives.iter().filter(|o| o.zone == ObjectiveZone::Stomach).count();
    assert!(stomach_after <= stomach_before);
    assert!(
        s.objectives
            .iter()
            .filter(|o| o.zone == ObjectiveZone::Pan)
            .all(|o| o.taste == Taste::Cool)
    );
    assert!(s.objectives.iter().filter(|o| o.zone == ObjectiveZone::Pan).count() >= 3);
}

#[test]
fn cooking_survivors_keep_their_identity() {
    let mut s = start_game();
    let ev = EatEvent {
        from: Vec2i { x: 10, y: 20 },
        flavor: Flavor { sweet: 3000, bitter: 2000, ..Flavor::default() },
        to_zone: ObjectiveZone::Stomach,
    };
    s.spawn_objectives(&ev);
    let before: Vec<perfect_chef::state::Objective> =
        s.objectives.iter().cloned().collect();
    for _ in 0..10 {
        s.cooking(1_000);
    }
    // the surviving stomach tokens are the old ones, unchanged except
    // for their advancing flight timers never being touched here, and
    // in their original order
    let mut cursor = 0usize;
    for o in s.objectives.iter().filter(|o| o.zone == ObjectiveZone::Stomach) {
        let found = before[cursor..].iter().position(|b| b == o);
        let found = found.expect("a stomach survivor must be an old token, unchanged");
        cursor += found + 1;
    }
}

#[test]
fn a_twinless_pan_taste_is_never_duplicated() {
    let mut s = start_game();
    let ev = EatEvent {
        from: Vec2i { x: 0, y: 0 },
        flavor: Flavor { sour: 1000, cool: 2000, ..Flavor::default() },
        to_zone: ObjectiveZone::Pan,
    };
    s.spawn_objectives(&ev);
    // one sour token (no twin) and two cool tokens (twins)
    for _ in 0..40 {
        s.cooking(1_000);
    }
    let sour = s
        .objectives
        .iter()
        .filter(|o| o.zone == ObjectiveZone::Pan && o.taste == Taste::Sour)
        .count();
    assert_eq!(sour, 1, "a pan taste without a twin never multiplies");
    let cool = s
        .objectives
        .iter()
        .filter(|o| o.zone == ObjectiveZone::Pan && o.taste == Taste::Cool)
        .count();
    assert!(cool >= 2, "pan tokens never despawn during cooking");
}
