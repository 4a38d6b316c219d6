use perfect_chef::geom::Vec2i;
use perfect_chef::state::{FoodState, GameState, Phase, RefreshShelfEvent};
use perfect_chef::tick::TickInput;

fn input(delta_ms: u64) -> TickInput {
    TickInput { delta_ms, pointer: None, pressed: false, assets_loaded: true }
}

fn start_game() -> GameState {
    let mut s = GameState::new();
    assert_eq!(s.phase, Phase::Init);
    s.tick(&input(16));
    assert_eq!(s.phase, Phase::Setup);
    s.tick(&input(16));
    assert_eq!(s.phase, Phase::Game);
    s
}

fn shelved_count_on(s: &GameState, shelf: usize) -> usize {
    s.foods
        .iter()
        .filter(|f| f.state == FoodState::Shelved && f.shelf == shelf)
        .count()
}

#[test]
fn init_builds_the_catalogs() {
    let mut s = GameState::new();
    s.tick(&input(16));
    assert_eq!(s.info.food.len(), 17);
    assert_eq!(s.info.dude.len(), 3);
    assert_eq!(s.info.food[0].sprite, "leg");
    let leg = s.info.food[0].flavor;
    assert_eq!(leg.savory, 2000);
    assert_eq!(leg.salty, 1000);
    assert_eq!(leg.sweet, 1000);
    assert_eq!(leg.spicy, 333);
    assert_eq!(s.info.food[16].sprite, "onion");
    assert_eq!(s.info.dude[1].sprite, "ale");
}

#[test]
fn setup_stalls_until_assets_load() {
    let mut s = GameState::new();
    s.tick(&input(16));
    for _ in 0..5 {
        s.tick(&TickInput { delta_ms: 16, pointer: None, pressed: false, assets_loaded: false });
        assert_eq!(s.phase, Phase::Setup);
    }
    s.tick(&input(16));
    assert_eq!(s.phase, Phase::Game);
}

#[test]
fn entering_the_round_stocks_every_shelf_once() {
    let s = start_game();
    assert_eq!(s.foods.len(), 3);
    for shelf in 0..3 {
        assert_eq!(shelved_count_on(&s, shelf), 1);
    }
    assert!(s.dude.is_some());
}

#[test]
fn refresh_without_clear_cycles_the_whole_shelf() {
    let mut s = start_game();
    let old_ids: Vec<u64> = s.foods.iter().map(|f| f.id).collect();
    s.run_shelf_refresh(&RefreshShelfEvent { clear: false });
    assert_eq!(s.foods.len(), 3);
    for shelf in 0..3 {
        assert_eq!(shelved_count_on(&s, shelf), 1);
    }
    for f in &s.foods {
        assert!(!old_ids.contains(&f.id), "stale food survived a full cycle");
    }
}

#[test]
fn refresh_with_clear_keeps_the_survivors() {
    let mut s = start_game();
    let old_ids: Vec<u64> = s.foods.iter().map(|f| f.id).collect();
    s.run_shelf_refresh(&RefreshShelfEvent { clear: true });
    assert_eq!(s.foods.len(), 3);
    let new_ids: Vec<u64> = s.foods.iter().map(|f| f.id).collect();
    assert_eq!(old_ids, new_ids);
}

#[test]
fn round_and_reward_alternate() {
    let mut s = start_game();
    s.tick(&input(10_000));
    assert_eq!(s.phase, Phase::Reward);
    s.tick(&input(5_000));
    assert_eq!(s.phase, Phase::Game);
    s.tick(&input(9_999));
    assert_eq!(s.phase, Phase::Game);
    s.tick(&input(1));
    assert_eq!(s.phase, Phase::Reward);
}

#[test]
fn picking_up_and_eating_a_food() {
    let mut s = start_game();
    let target = s.foods[1].pos;
    s.mouse_pos(Some(target));
    let (eat, refresh) = s.use_hand(true);
    assert!(eat.is_none() && refresh.is_none());
    assert!(s.hand.holding.is_some());
    let held: Vec<&perfect_chef::state::Food> =
        s.foods.iter().filter(|f| f.state == FoodState::Held).collect();
    assert_eq!(held.len(), 1);
    assert_eq!(Some(held[0].id), s.hand.holding);

    let mouth = s.mouth;
    s.mouse_pos(Some(mouth));
    s.move_hand();
    let (eat, refresh) = s.use_hand(true);
    let eat = eat.expect("a drop on the mouth eats the food");
    assert_eq!(eat.to_zone, perfect_chef::state::ObjectiveZone::Stomach);
    assert_eq!(refresh.expect("eating refreshes the shelf").clear, true);
    assert!(s.hand.holding.is_none());
    assert_eq!(s.foods.len(), 2);
    assert!(s.foods.iter().all(|f| f.state != FoodState::Held));
}

#[test]
fn dropping_on_the_pan_cooks_instead() {
    let mut s = start_game();
    let target = s.foods[0].pos;
    s.mouse_pos(Some(target));
    s.use_hand(true);
    assert!(s.hand.holding.is_some());
    let pan_pos = s.pan.pos;
    s.mouse_pos(Some(pan_pos));
    s.move_hand();
    let (eat, refresh) = s.use_hand(true);
    let eat = eat.expect("a drop on the pan cooks the food");
    assert_eq!(eat.to_zone, perfect_chef::state::ObjectiveZone::Pan);
    assert_eq!(refresh.expect("cooking cycles the shelf").clear, false);
}

#[test]
fn a_press_far_from_everything_keeps_the_food_held() {
    let mut s = start_game();
    let target = s.foods[2].pos;
    s.mouse_pos(Some(target));
    s.use_hand(true);
    let held = s.hand.holding;
    assert!(held.is_some());
    s.mouse_pos(Some(Vec2i { x: 400, y: -300 }));
    s.move_hand();
    let (eat, refresh) = s.use_hand(true);
    assert!(eat.is_none() && refresh.is_none());
    assert_eq!(s.hand.holding, held);
}

#[test]
fn leaving_the_round_drops_the_held_food() {
    let mut s = start_game();
    let target = s.foods[0].pos;
    s.mouse_pos(Some(target));
    s.use_hand(true);
    assert!(s.hand.holding.is_some());
    s.tick(&input(10_000));
    assert_eq!(s.phase, Phase::Reward);
    assert!(s.hand.holding.is_none());
    assert!(s.foods.iter().all(|f| f.state != FoodState::Held));
}

#[test]
fn held_food_follows_the_pointer() {
    let mut s = start_game();
    let target = s.foods[0].pos;
    s.mouse_pos(Some(target));
    s.use_hand(true);
    let p = Vec2i { x: 123, y: -45 };
    s.mouse_pos(Some(p));
    s.move_hand();
    let held_id = s.hand.holding.unwrap();
    let held = s.foods.iter().find(|f| f.id == held_id).unwrap();
    assert_eq!(held.pos, p);
}
