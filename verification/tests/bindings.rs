use fivetris::config::key_names::KeyName;
use fivetris::config::settings::KeyBindings;
use fivetris::control::actions::AppAction;
use fivetris::control::bindings::{collect_actions, collect_keyboard_actions};
use fivetris::game::game_state::GameMode;

#[test]
fn pressing_keys_gives_their_actions_once() {
    let bindings = KeyBindings::default();
    let mut previous = Vec::new();
    let mut actions = Vec::new();

    collect_keyboard_actions(
        &bindings,
        &vec![KeyName::Left, KeyName::F2],
        false,
        false,
        50,
        &mut actions,
        &mut previous,
    );
    assert_eq!(
        actions,
        vec![AppAction::Reset(GameMode::Cheese), AppAction::MoveLeftPress(50)]
    );
    assert_eq!(previous, vec![KeyName::Left, KeyName::F2]);

    let mut again = Vec::new();
    collect_keyboard_actions(
        &bindings,
        &vec![KeyName::Left, KeyName::F2],
        false,
        false,
        60,
        &mut again,
        &mut previous,
    );
    assert!(again.is_empty());
}

#[test]
fn releasing_a_key_gives_its_release_action() {
    let bindings = KeyBindings::default();
    let mut previous = vec![KeyName::Down];
    let mut actions = Vec::new();
    collect_keyboard_actions(&bindings, &Vec::new(), false, false, 7, &mut actions, &mut previous);
    assert_eq!(actions, vec![AppAction::SoftDropRelease]);
    assert!(previous.is_empty());
}

#[test]
fn modifiers_select_undo_and_block_turns() {
    let bindings = KeyBindings::default();
    let mut previous = Vec::new();
    let mut actions = Vec::new();
    collect_keyboard_actions(&bindings, &vec![KeyName::Z], false, true, 1, &mut actions, &mut previous);
    assert_eq!(actions, vec![AppAction::Undo]);

    let mut previous = Vec::new();
    let mut actions = Vec::new();
    collect_keyboard_actions(&bindings, &vec![KeyName::Z], true, false, 1, &mut actions, &mut previous);
    assert!(actions.is_empty());
}

#[test]
fn every_hard_drop_key_drops_and_hold_follows_the_shift_setting() {
    let mut bindings = KeyBindings::default();
    let mut previous = Vec::new();
    let mut actions = Vec::new();
    collect_keyboard_actions(
        &bindings,
        &vec![KeyName::Up, KeyName::Space, KeyName::C],
        false,
        false,
        1,
        &mut actions,
        &mut previous,
    );
    assert_eq!(actions, vec![AppAction::Hold, AppAction::HardDrop, AppAction::HardDrop]);

    bindings.hold_with_shift = true;
    let mut previous = Vec::new();
    let mut actions = Vec::new();
    collect_keyboard_actions(&bindings, &vec![KeyName::C], false, false, 1, &mut actions, &mut previous);
    assert!(actions.is_empty());
}

#[test]
fn a_blocked_keyboard_gives_nothing_and_forgets_held_keys() {
    let bindings = KeyBindings::default();
    let mut previous = vec![KeyName::Left];
    let mut shift_was_down = false;
    let actions = collect_actions(
        true,
        &bindings,
        &vec![KeyName::Right],
        true,
        false,
        5,
        &mut previous,
        &mut shift_was_down,
    );
    assert!(actions.is_empty());
    assert!(previous.is_empty());
    assert!(!shift_was_down);
}

#[test]
fn shift_holds_once_when_bound_to_hold() {
    let mut bindings = KeyBindings::default();
    bindings.hold_with_shift = true;
    let mut previous = Vec::new();
    let mut shift_was_down = false;
    let first = collect_actions(false, &bindings, &vec![], true, false, 5, &mut previous, &mut shift_was_down);
    assert_eq!(first, vec![AppAction::Hold]);
    assert!(shift_was_down);
    let second = collect_actions(false, &bindings, &vec![], true, false, 6, &mut previous, &mut shift_was_down);
    assert!(second.is_empty());
    bindings.hold_with_shift = false;
    let mut was_down = false;
    let third = collect_actions(false, &bindings, &vec![KeyName::F2], true, false, 7, &mut previous, &mut was_down);
    assert_eq!(third, vec![AppAction::Reset(GameMode::Cheese)]);
    assert_eq!(previous, vec![KeyName::F2]);
}
