use vstd::prelude::*;

use crate::config::key_names::KeyName;
use crate::config::settings::KeyBindings;
use crate::control::actions::AppAction;
use crate::game::game_state::GameMode;

verus! {

/// Whether a binding fires when its key goes down or when it comes up.
#[derive(Debug, Clone, Copy, PartialEq, Eq, Structural)]
pub enum Trigger {
    Press,
    Release,
}

/// What a binding asks of the shift key.
#[derive(Debug, Clone, Copy, PartialEq, Eq, Structural)]
pub enum ShiftRequirement {
    Any,
    NotPressed,
}

/// What a binding asks of the control key.
#[derive(Debug, Clone, Copy, PartialEq, Eq, Structural)]
pub enum CtrlRequirement {
    Any,
    NotPressed,
    Pressed,
}

/// The actions a key can be bound to.
#[derive(Debug, Clone, Copy, PartialEq, Eq, Structural)]
pub enum BindingAction {
    TogglePause,
    Reset(GameMode),
    ResetCurrent,
    RequestScreenshot,
    MoveLeftPress,
    MoveLeftRelease,
    MoveRightPress,
    MoveRightRelease,
    SoftDropPress,
    SoftDropRelease,
    HardDrop,
    RotateCcw,
    RotateCw,
    Rotate180,
    Hold,
    Undo,
    Redo,
}

/// A key, when it fires, the modifiers it needs, and the action it asks for.
#[derive(Debug, Clone, Copy, PartialEq, Eq, Structural)]
pub struct KeyBinding {
    pub key_name: KeyName,
    pub trigger: Trigger,
    pub shift: ShiftRequirement,
    pub ctrl: CtrlRequirement,
    pub action: BindingAction,
}

/// A binding that fires on a press, whatever the modifiers.
pub open spec fn press_any(key: KeyName, action: BindingAction) -> KeyBinding {
    KeyBinding {
        key_name: key,
        trigger: Trigger::Press,
        shift: ShiftRequirement::Any,
        ctrl: CtrlRequirement::Any,
        action,
    }
}

/// A binding that fires on a release, whatever the modifiers.
pub open spec fn release_any(key: KeyName, action: BindingAction) -> KeyBinding {
    KeyBinding {
        key_name: key,
        trigger: Trigger::Release,
        shift: ShiftRequirement::Any,
        ctrl: CtrlRequirement::Any,
        action,
    }
}

/// The fixed keys of the program: pause, the mode resets, the screenshot
/// and the reset of the current mode.
pub open spec fn app_bindings() -> Seq<KeyBinding> {
    seq![
        press_any(KeyName::Escape, BindingAction::TogglePause),
        press_any(KeyName::F1, BindingAction::Reset(GameMode::Training)),
        press_any(KeyName::F2, BindingAction::Reset(GameMode::Cheese)),
        press_any(KeyName::F3, BindingAction::Reset(GameMode::FourWide)),
        press_any(KeyName::F4, BindingAction::Reset(GameMode::PerfectClear)),
        press_any(KeyName::F5, BindingAction::Reset(GameMode::Master)),
        press_any(KeyName::F6, BindingAction::RequestScreenshot),
        press_any(KeyName::R, BindingAction::ResetCurrent),
    ]
}

/// The gameplay keys the player bound, in the order they are checked; the
/// hold key only where hold is not on the shift key. The hard-drop keys
/// come after these.
pub open spec fn gameplay_bindings(b: KeyBindings) -> Seq<KeyBinding> {
    let main = seq![
        press_any(b.move_left, BindingAction::MoveLeftPress),
        release_any(b.move_left, BindingAction::MoveLeftRelease),
        press_any(b.move_right, BindingAction::MoveRightPress),
        release_any(b.move_right, BindingAction::MoveRightRelease),
        press_any(b.soft_drop, BindingAction::SoftDropPress),
        release_any(b.soft_drop, BindingAction::SoftDropRelease),
        KeyBinding {
            key_name: b.rotate_ccw,
            trigger: Trigger::Press,
            shift: ShiftRequirement::NotPressed,
            ctrl: CtrlRequirement::NotPressed,
            action: BindingAction::RotateCcw,
        },
        KeyBinding {
            key_name: b.rotate_cw,
            trigger: Trigger::Press,
            shift: ShiftRequirement::Any,
            ctrl: CtrlRequirement::NotPressed,
            action: BindingAction::RotateCw,
        },
        KeyBinding {
            key_name: b.rotate_180,
            trigger: Trigger::Press,
            shift: ShiftRequirement::Any,
            ctrl: CtrlRequirement::NotPressed,
            action: BindingAction::Rotate180,
        },
        KeyBinding {
            key_name: b.undo,
            trigger: Trigger::Press,
            shift: ShiftRequirement::Any,
            ctrl: CtrlRequirement::Pressed,
            action: BindingAction::Undo,
        },
        KeyBinding {
            key_name: b.redo,
            trigger: Trigger::Press,
            shift: ShiftRequirement::Any,
            ctrl: CtrlRequirement::Pressed,
            action: BindingAction::Redo,
        },
    ];
    if b.hold_with_shift {
        main
    } else {
        main.push(press_any(b.hold, BindingAction::Hold))
    }
}

/// A hard-drop binding for each hard-drop key.
pub open spec fn hard_drop_bindings(keys: Seq<KeyName>) -> Seq<KeyBinding> {
    keys.map_values(|k: KeyName| press_any(k, BindingAction::HardDrop))
}

/// Every binding, in the order they are checked.
pub open spec fn all_bindings(b: KeyBindings) -> Seq<KeyBinding> {
    app_bindings() + gameplay_bindings(b) + hard_drop_bindings(b.hard_drop@)
}

/// Whether the shift key's state meets a requirement.
pub open spec fn spec_shift_matches(r: ShiftRequirement, shift: bool) -> bool {
    match r {
        ShiftRequirement::Any => true,
        ShiftRequirement::NotPressed => !shift,
    }
}

/// Whether the control key's state meets a requirement.
pub open spec fn spec_ctrl_matches(r: CtrlRequirement, ctrl: bool) -> bool {
    match r {
        CtrlRequirement::Any => true,
        CtrlRequirement::NotPressed => !ctrl,
        CtrlRequirement::Pressed => ctrl,
    }
}

/// Whether a binding fires: its modifiers match and its key went down
/// (press) or came up (release) since the last frame.
pub open spec fn fires(
    binding: KeyBinding,
    down: Seq<KeyName>,
    before: Seq<KeyName>,
    shift: bool,
    ctrl: bool,
) -> bool {
    &&& spec_shift_matches(binding.shift, shift)
    &&& spec_ctrl_matches(binding.ctrl, ctrl)
    &&& match binding.trigger {
        Trigger::Press => down.contains(binding.key_name) && !before.contains(binding.key_name),
        Trigger::Release => !down.contains(binding.key_name) && before.contains(binding.key_name),
    }
}

/// The action a binding asks for at time `now`.
pub open spec fn action_of(action: BindingAction, now: u64) -> AppAction {
    match action {
        BindingAction::TogglePause => AppAction::TogglePause,
        BindingAction::Reset(mode) => AppAction::Reset(mode),
        BindingAction::ResetCurrent => AppAction::ResetCurrent,
        BindingAction::RequestScreenshot => AppAction::RequestScreenshot,
        BindingAction::MoveLeftPress => AppAction::MoveLeftPress(now),
        BindingAction::MoveLeftRelease => AppAction::MoveLeftRelease,
        BindingAction::MoveRightPress => AppAction::MoveRightPress(now),
        BindingAction::MoveRightRelease => AppAction::MoveRightRelease,
        BindingAction::SoftDropPress => AppAction::SoftDropPress(now),
        BindingAction::SoftDropRelease => AppAction::SoftDropRelease,
        BindingAction::HardDrop => AppAction::HardDrop,
        BindingAction::RotateCcw => AppAction::RotateCcw,
        BindingAction::RotateCw => AppAction::RotateCw,
        BindingAction::Rotate180 => AppAction::Rotate180,
        BindingAction::Hold => AppAction::Hold,
        BindingAction::Undo => AppAction::Undo,
        BindingAction::Redo => AppAction::Redo,
    }
}

/// The actions of the bindings in `list` that fire, in order.
pub open spec fn fired_actions(
    list: Seq<KeyBinding>,
    down: Seq<KeyName>,
    before: Seq<KeyName>,
    shift: bool,
    ctrl: bool,
    now: u64,
) -> Seq<AppAction>
    decreases list.len(),
{
    if list.len() == 0 {
        Seq::empty()
    } else {
        let rest = fired_actions(list.drop_last(), down, before, shift, ctrl, now);
        if fires(list.last(), down, before, shift, ctrl) {
            rest.push(action_of(list.last().action, now))
        } else {
            rest
        }
    }
}

impl BindingAction {
    /// The action this binding asks for at time `now`.
    pub fn into_action(self, now: u64) -> (r: AppAction)
        ensures
            r == action_of(self, now),
    {
        match self {
            BindingAction::TogglePause => AppAction::TogglePause,
            BindingAction::Reset(mode) => AppAction::Reset(mode),
            BindingAction::ResetCurrent => AppAction::ResetCurrent,
            BindingAction::RequestScreenshot => AppAction::RequestScreenshot,
            BindingAction::MoveLeftPress => AppAction::MoveLeftPress(now),
            BindingAction::MoveLeftRelease => AppAction::MoveLeftRelease,
            BindingAction::MoveRightPress => AppAction::MoveRightPress(now),
            BindingAction::MoveRightRelease => AppAction::MoveRightRelease,
            BindingAction::SoftDropPress => AppAction::SoftDropPress(now),
            BindingAction::SoftDropRelease => AppAction::SoftDropRelease,
            BindingAction::HardDrop => AppAction::HardDrop,
            BindingAction::RotateCcw => AppAction::RotateCcw,
            BindingAction::RotateCw => AppAction::RotateCw,
            BindingAction::Rotate180 => AppAction::Rotate180,
            BindingAction::Hold => AppAction::Hold,
            BindingAction::Undo => AppAction::Undo,
            BindingAction::Redo => AppAction::Redo,
        }
    }
}

/// Whether the shift key's state meets a requirement.
pub fn shift_matches(requirement: ShiftRequirement, shift_pressed: bool) -> (r: bool)
    ensures
        r == spec_shift_matches(requirement, shift_pressed),
{
    match requirement {
        ShiftRequirement::Any => true,
        ShiftRequirement::NotPressed => !shift_pressed,
    }
}

/// Whether the control key's state meets a requirement.
pub fn ctrl_matches(requirement: CtrlRequirement, ctrl_pressed: bool) -> (r: bool)
    ensures
        r == spec_ctrl_matches(requirement, ctrl_pressed),
{
    match requirement {
        CtrlRequirement::Any => true,
        CtrlRequirement::NotPressed => !ctrl_pressed,
        CtrlRequirement::Pressed => ctrl_pressed,
    }
}

fn holds_key(keys: &Vec<KeyName>, key: KeyName) -> (r: bool)
    ensures
        r == keys@.contains(key),
{
    let mut i: usize = 0;
    while i < keys.len()
        invariant
            i <= keys@.len(),
            forall|k: int| 0 <= k < i ==> keys@[k] != key,
        decreases keys@.len() - i,
    {
        if keys[i] == key {
            return true;
        }
        i += 1;
    }
    false
}

/// Adds the binding's action to `actions` where it fires.
pub fn collect_binding_action(
    binding: KeyBinding,
    keys_down: &Vec<KeyName>,
    previous_keys: &Vec<KeyName>,
    shift: bool,
    ctrl: bool,
    now: u64,
    actions: &mut Vec<AppAction>,
)
    ensures
        final(actions)@ == if fires(binding, keys_down@, previous_keys@, shift, ctrl) {
            old(actions)@.push(action_of(binding.action, now))
        } else {
            old(actions)@
        },
{
    if !shift_matches(binding.shift, shift) || !ctrl_matches(binding.ctrl, ctrl) {
        return;
    }
    let key_down = holds_key(keys_down, binding.key_name);
    let was_down = holds_key(previous_keys, binding.key_name);
    let triggered = match binding.trigger {
        Trigger::Press => key_down && !was_down,
        Trigger::Release => !key_down && was_down,
    };
    if triggered {
        actions.push(binding.action.into_action(now));
    }
}

fn press_binding(key: KeyName, action: BindingAction) -> (r: KeyBinding)
    ensures
        r == press_any(key, action),
{
    KeyBinding {
        key_name: key,
        trigger: Trigger::Press,
        shift: ShiftRequirement::Any,
        ctrl: CtrlRequirement::Any,
        action,
    }
}

fn release_binding(key: KeyName, action: BindingAction) -> (r: KeyBinding)
    ensures
        r == release_any(key, action),
{
    KeyBinding {
        key_name: key,
        trigger: Trigger::Release,
        shift: ShiftRequirement::Any,
        ctrl: CtrlRequirement::Any,
        action,
    }
}

/// Every binding the player's key bindings give, in the order they are
/// checked.
pub fn key_bindings_of(bindings: &KeyBindings) -> (r: Vec<KeyBinding>)
    ensures
        r@ == all_bindings(*bindings),
{
    let mut r = vec![
        press_binding(KeyName::Escape, BindingAction::TogglePause),
        press_binding(KeyName::F1, BindingAction::Reset(GameMode::Training)),
        press_binding(KeyName::F2, BindingAction::Reset(GameMode::Cheese)),
        press_binding(KeyName::F3, BindingAction::Reset(GameMode::FourWide)),
        press_binding(KeyName::F4, BindingAction::Reset(GameMode::PerfectClear)),
        press_binding(KeyName::F5, BindingAction::Reset(GameMode::Master)),
        press_binding(KeyName::F6, BindingAction::RequestScreenshot),
        press_binding(KeyName::R, BindingAction::ResetCurrent),
        press_binding(bindings.move_left, BindingAction::MoveLeftPress),
        release_binding(bindings.move_left, BindingAction::MoveLeftRelease),
        press_binding(bindings.move_right, BindingAction::MoveRightPress),
        release_binding(bindings.move_right, BindingAction::MoveRightRelease),
        press_binding(bindings.soft_drop, BindingAction::SoftDropPress),
        release_binding(bindings.soft_drop, BindingAction::SoftDropRelease),
        KeyBinding {
            key_name: bindings.rotate_ccw,
            trigger: Trigger::Press,
            shift: ShiftRequirement::NotPressed,
            ctrl: CtrlRequirement::NotPressed,
            action: BindingAction::RotateCcw,
        },
        KeyBinding {
            key_name: bindings.rotate_cw,
            trigger: Trigger::Press,
            shift: ShiftRequirement::Any,
            ctrl: CtrlRequirement::NotPressed,
            action: BindingAction::RotateCw,
        },
        KeyBinding {
            key_name: bindings.rotate_180,
            trigger: Trigger::Press,
            shift: ShiftRequirement::Any,
            ctrl: CtrlRequirement::NotPressed,
            action: BindingAction::Rotate180,
        },
        KeyBinding {
            key_name: bindings.undo,
            trigger: Trigger::Press,
            shift: ShiftRequirement::Any,
            ctrl: CtrlRequirement::Pressed,
            action: BindingAction::Undo,
        },
        KeyBinding {
            key_name: bindings.redo,
            trigger: Trigger::Press,
            shift: ShiftRequirement::Any,
            ctrl: CtrlRequirement::Pressed,
            action: BindingAction::Redo,
        },
    ];
    if !bindings.hold_with_shift {
        r.push(press_binding(bindings.hold, BindingAction::Hold));
    }
    let ghost fixed = r@;
    assert(fixed =~= app_bindings() + gameplay_bindings(*bindings));
    let mut i: usize = 0;
    while i < bindings.hard_drop.len()
        invariant
            i <= bindings.hard_drop@.len(),
            r@ =~= fixed + hard_drop_bindings(bindings.hard_drop@.subrange(0, i as int)),
        decreases bindings.hard_drop@.len() - i,
    {
        r.push(press_binding(bindings.hard_drop[i], BindingAction::HardDrop));
        i += 1;
        assert(hard_drop_bindings(bindings.hard_drop@.subrange(0, i as int)) =~= hard_drop_bindings(
            bindings.hard_drop@.subrange(0, i - 1),
        ).push(press_any(bindings.hard_drop@[i - 1], BindingAction::HardDrop)));
    }
    assert(bindings.hard_drop@.subrange(0, bindings.hard_drop@.len() as int) =~= bindings.hard_drop@);
    r
}

/// Adds to `actions`, in order, the action of every binding that fires for
/// the keys held now (`keys_down`) and in the last frame, and the state of
/// the shift and control keys; then remembers the keys held now.
pub fn collect_keyboard_actions(
    bindings: &KeyBindings,
    keys_down: &Vec<KeyName>,
    shift: bool,
    ctrl: bool,
    now: u64,
    actions: &mut Vec<AppAction>,
    previous_keys: &mut Vec<KeyName>,
)
    ensures
        final(actions)@ == old(actions)@ + fired_actions(
            all_bindings(*bindings),
            keys_down@,
            old(previous_keys)@,
            shift,
            ctrl,
            now,
        ),
        final(previous_keys)@ == keys_down@,
{
    let list = key_bindings_of(bindings);
    let ghost before = previous_keys@;
    let mut i: usize = 0;
    while i < list.len()
        invariant
            previous_keys@ == before,
            i <= list@.len(),
            actions@ == old(actions)@ + fired_actions(
                list@.subrange(0, i as int),
                keys_down@,
                before,
                shift,
                ctrl,
                now,
            ),
        decreases list@.len() - i,
    {
        let ghost prev = actions@;
        collect_binding_action(list[i], keys_down, previous_keys, shift, ctrl, now, actions);
        proof {
            let sub = list@.subrange(0, i + 1);
            assert(sub.drop_last() =~= list@.subrange(0, i as int));
            assert(sub.last() == list@[i as int]);
            if fires(list@[i as int], keys_down@, before, shift, ctrl) {
                assert(actions@ =~= old(actions)@ + fired_actions(sub, keys_down@, before, shift, ctrl, now));
            } else {
                assert(actions@ =~= old(actions)@ + fired_actions(sub, keys_down@, before, shift, ctrl, now));
            }
        }
        i += 1;
    }
    assert(list@.subrange(0, list@.len() as int) =~= list@);
    let mut copy: Vec<KeyName> = Vec::new();
    let mut j: usize = 0;
    while j < keys_down.len()
        invariant
            j <= keys_down@.len(),
            copy@ == keys_down@.subrange(0, j as int),
        decreases keys_down@.len() - j,
    {
        copy.push(keys_down[j]);
        j += 1;
    }
    assert(keys_down@.subrange(0, keys_down@.len() as int) =~= keys_down@);
    *previous_keys = copy;
}

/// The actions of one frame: none where the keyboard belongs elsewhere (a
/// dialog or a text field), else those of the bindings that fire, then a
/// hold where shift holds and has just gone down.
pub open spec fn frame_actions(
    blocked: bool,
    bindings: KeyBindings,
    keys_down: Seq<KeyName>,
    previous_keys: Seq<KeyName>,
    shift: bool,
    ctrl: bool,
    shift_was_down: bool,
    now: u64,
) -> Seq<AppAction> {
    if blocked {
        Seq::empty()
    } else {
        let fired = fired_actions(all_bindings(bindings), keys_down, previous_keys, shift, ctrl, now);
        if bindings.hold_with_shift && shift && !shift_was_down {
            fired.push(AppAction::Hold)
        } else {
            fired
        }
    }
}

/// Collects the actions of one frame (see `frame_actions`). The keys held
/// are forgotten where the keyboard belongs elsewhere, else remembered, as
/// is whether shift was down.
pub fn collect_actions(
    blocked: bool,
    bindings: &KeyBindings,
    keys_down: &Vec<KeyName>,
    shift: bool,
    ctrl: bool,
    now: u64,
    previous_keys: &mut Vec<KeyName>,
    shift_was_down: &mut bool,
) -> (actions: Vec<AppAction>)
    ensures
        actions@ == frame_actions(
            blocked,
            *bindings,
            keys_down@,
            old(previous_keys)@,
            shift,
            ctrl,
            *old(shift_was_down),
            now,
        ),
        final(previous_keys)@ == (if blocked {
            Seq::empty()
        } else {
            keys_down@
        }),
        *final(shift_was_down) == (if blocked {
            *old(shift_was_down)
        } else {
            shift
        }),
{
    let mut actions: Vec<AppAction> = Vec::new();
    if blocked {
        previous_keys.clear();
        return actions;
    }
    collect_keyboard_actions(bindings, keys_down, shift, ctrl, now, &mut actions, previous_keys);
    if bindings.hold_with_shift && shift && !*shift_was_down {
        actions.push(AppAction::Hold);
    }
    *shift_was_down = shift;
    actions
}

} // verus!
