use fivetris::control::controller::{GameController, is_gameplay_active};
use fivetris::game::game_state::GameMode;
use fivetris::game::input::HorizontalDirection;

#[test]
fn cycle_mode_uses_round_robin_order() {
    assert_eq!(
        GameController::next_round_robin_mode(GameMode::Training),
        GameMode::Cheese
    );
    assert_eq!(
        GameController::next_round_robin_mode(GameMode::Cheese),
        GameMode::FourWide
    );
    assert_eq!(
        GameController::next_round_robin_mode(GameMode::FourWide),
        GameMode::PerfectClear
    );
    assert_eq!(
        GameController::next_round_robin_mode(GameMode::PerfectClear),
        GameMode::Master
    );
    assert_eq!(
        GameController::next_round_robin_mode(GameMode::Master),
        GameMode::Training
    );
    assert_eq!(
        GameController::next_round_robin_mode(GameMode::Edit),
        GameMode::Training
    );
}

#[test]
fn clearing_forgets_held_keys() {
    let mut controller = GameController::default();
    controller
        .repeat_state
        .press_horizontal(HorizontalDirection::Left, 5, 120, true);
    controller.repeat_state.press_soft_drop(5, 60);
    controller.clear_repeat_state();
    assert!(!controller.repeat_state.left.pressed);
    assert!(!controller.repeat_state.soft_drop.pressed);
    assert_eq!(controller.repeat_state.active_horizontal, None);
}

use fivetris::control::actions::AppAction;
use fivetris::game::game_loop::GameLoop;
use fivetris::game::game_state::BagMode;

fn test_loop() -> GameLoop {
    let mut game_loop = GameLoop::new(GameMode::Training, BagMode::SevenBag, 0, true);
    game_loop.spawn_next();
    game_loop
}

#[test]
fn horizontal_repeat_starts_after_das() {
    let mut controller = GameController::default();
    let mut game_loop = test_loop();
    let mut paused = false;
    game_loop.game.gravity.das_ms = 120;
    game_loop.game.gravity.arr_ms = 40;
    let start_x = game_loop.game.current.x;
    let now: u64 = 1_000;

    controller.dispatch(&mut game_loop, &mut paused, &None, AppAction::MoveLeftPress(now));
    assert_eq!(game_loop.game.current.x, start_x - 1);

    controller.advance_timers(&mut game_loop, paused, now + 120);
    assert_eq!(game_loop.game.current.x, start_x - 1);

    controller.advance_timers(&mut game_loop, paused, now + 121);
    assert_eq!(game_loop.game.current.x, start_x - 2);

    controller.advance_timers(&mut game_loop, paused, now + 161);
    assert_eq!(game_loop.game.current.x, start_x - 3);
}

#[test]
fn releasing_left_hands_repeat_to_held_right() {
    let mut controller = GameController::default();
    let mut game_loop = test_loop();
    let mut paused = false;
    game_loop.game.gravity.das_ms = 120;
    game_loop.game.gravity.arr_ms = 40;
    game_loop.game.gravity.das_cancel = true;
    let start_x = game_loop.game.current.x;
    let now: u64 = 1_000;

    controller.dispatch(&mut game_loop, &mut paused, &None, AppAction::MoveLeftPress(now));
    controller.dispatch(
        &mut game_loop,
        &mut paused,
        &None,
        AppAction::MoveRightPress(now + 10),
    );
    controller.dispatch(&mut game_loop, &mut paused, &None, AppAction::MoveLeftRelease);

    controller.advance_timers(&mut game_loop, paused, now + 131);
    assert_eq!(game_loop.game.current.x, start_x + 1);
}

#[test]
fn zero_arr_shifts_until_blocked() {
    let mut controller = GameController::default();
    let mut game_loop = test_loop();
    let mut paused = false;
    game_loop.game.gravity.das_ms = 0;
    game_loop.game.gravity.arr_ms = 0;
    let now: u64 = 1_000;

    controller.dispatch(&mut game_loop, &mut paused, &None, AppAction::MoveLeftPress(now));
    controller.advance_timers(&mut game_loop, paused, now + 1);

    assert_eq!(game_loop.game.current.x, 0);
}

#[test]
fn paused_game_ignores_moves_and_pause_toggles() {
    let mut controller = GameController::default();
    let mut game_loop = test_loop();
    let mut paused = false;
    let start_x = game_loop.game.current.x;

    controller.dispatch(&mut game_loop, &mut paused, &None, AppAction::TogglePause);
    assert!(paused);
    controller.dispatch(&mut game_loop, &mut paused, &None, AppAction::MoveLeftPress(5));
    assert_eq!(game_loop.game.current.x, start_x);
    controller.dispatch(&mut game_loop, &mut paused, &None, AppAction::TogglePause);
    assert!(!paused);
    controller.dispatch(&mut game_loop, &mut paused, &None, AppAction::MoveLeftPress(5));
    assert_eq!(game_loop.game.current.x, start_x - 1);
}

#[test]
fn cycle_mode_restarts_in_the_next_mode_and_unpauses() {
    let mut controller = GameController::default();
    let mut game_loop = test_loop();
    let mut paused = true;

    controller.dispatch(&mut game_loop, &mut paused, &None, AppAction::CycleMode);
    assert_eq!(game_loop.game.mode, GameMode::Cheese);
    assert!(!paused);
    controller.dispatch(&mut game_loop, &mut paused, &None, AppAction::ResetCurrent);
    assert_eq!(game_loop.game.mode, GameMode::Cheese);
}

#[test]
fn gameplay_is_active_unless_paused_or_lost() {
    let mut game_loop = GameLoop::new(GameMode::Training, BagMode::SevenBag, 0, true);
    assert!(is_gameplay_active(&game_loop, false));
    assert!(!is_gameplay_active(&game_loop, true));
    game_loop.game.stats.lost = true;
    assert!(!is_gameplay_active(&game_loop, false));
}
