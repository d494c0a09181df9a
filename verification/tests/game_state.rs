use fivetris::game::game_state::{
    ClearFlashState, GravityState, HoldState, LockDelayState, QueueState, SpinState, Stats,
};
use fivetris::game::piece::Tetromino;

#[test]
fn hold_state_default_construction() {
    let h = HoldState::default();
    assert!(h.piece.is_none());
    assert!(!h.swapped_this_turn);
    assert!(h.infinite_hold);
}

#[test]
fn hold_state_with_piece() {
    let h = HoldState {
        piece: Some(Tetromino::T),
        swapped_this_turn: true,
        infinite_hold: false,
    };
    assert_eq!(h.piece, Some(Tetromino::T));
}

#[test]
fn queue_state_construction() {
    let q = QueueState {
        visible: vec![Tetromino::I, Tetromino::J, Tetromino::T],
        seed: 42,
        ..Default::default()
    };
    assert_eq!(q.visible.len(), 3);
    assert_eq!(q.seed, 42);
}

#[test]
fn stats_defaults() {
    let s = Stats::default();
    assert_eq!(s.damage, 0);
    assert!(!s.lost);
}

#[test]
fn spin_state_default() {
    let s = SpinState::default();
    assert!(!s.is_t_spin);
    assert!(!s.is_mini);
    assert!(s.last_kick_index.is_none());
}

#[test]
fn gravity_state_default() {
    let g = GravityState::default();
    assert!(g.gravity_hz.is_none());
    assert_eq!(g.das_ms, 120);
}

#[test]
fn lock_delay_state_defaults() {
    let ld = LockDelayState::default();
    assert!(!ld.active);
    assert_eq!(ld.delay_ms, 500);
    assert_eq!(ld.max_moves, 15);
}

#[test]
fn clear_flash_state_defaults() {
    let cf = ClearFlashState::default();
    assert!(!cf.active);
    assert!(cf.lines.is_empty());
    assert_eq!(cf.duration_ms, 300);
}
