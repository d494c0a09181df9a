use vstd::prelude::*;

use crate::game::game_state::GameMode;
use crate::game::piece::Cell;

verus! {

/// What the player asked the game to do. Times are milliseconds on the
/// game's clock.
#[derive(Debug, Clone, PartialEq, Eq)]
pub enum AppAction {
    CopyState,
    PasteState,
    RequestScreenshot,
    ToggleGhost(bool),
    SetVolume(u8),
    SelectSkin(String),
    SelectTexture(String),
    ApplySettings,
    ConfirmSettings,
    CancelSettings,
    ExportSettings,
    ImportSettings,
    BeginBrushStroke,
    TogglePause,
    Reset(GameMode),
    ResetCurrent,
    CycleMode,
    MoveLeftPress(u64),
    MoveLeftRelease,
    MoveRightPress(u64),
    MoveRightRelease,
    SoftDropPress(u64),
    SoftDropRelease,
    HardDrop,
    RotateCcw,
    RotateCw,
    Rotate180,
    Hold,
    Undo,
    Redo,
    SetEditColor(Cell),
    ClearBoard,
    ToggleHighlightMode,
    ClearHighlight,
    ToggleAutoColor(bool),
    ToggleAutoLockOnGround(bool),
    EditCell(i32, i32, Cell),
    EditHighlightCell(i32, i32, u8),
    StartBagEdit,
    ApplyBagEdit(String),
    CancelBagEdit,
    StartHoldEdit(String),
    ApplyHoldEdit(String),
    CancelHoldEdit,
}

} // verus!
