use vstd::prelude::*;

verus! {

/// A side a piece can be shifted to.
#[derive(Debug, Clone, Copy, PartialEq, Eq, Structural)]
pub enum HorizontalDirection {
    Left,
    Right,
}

impl HorizontalDirection {
    /// The other side.
    pub open spec fn spec_opposite(self) -> HorizontalDirection {
        match self {
            HorizontalDirection::Left => HorizontalDirection::Right,
            HorizontalDirection::Right => HorizontalDirection::Left,
        }
    }

    /// The other side.
    pub fn opposite(self) -> (r: Self)
        ensures
            r == self.spec_opposite(),
    {
        match self {
            HorizontalDirection::Left => HorizontalDirection::Right,
            HorizontalDirection::Right => HorizontalDirection::Left,
        }
    }
}

/// A held key that repeats: whether it is down, when it went down and
/// when it next repeats, in milliseconds of a monotonic clock.
#[derive(Debug, Clone, Copy, PartialEq, Eq, Structural)]
pub struct RepeatKeyState {
    pub pressed: bool,
    pub pressed_at: u64,
    pub next_repeat_at: u64,
}

impl RepeatKeyState {
    /// A key that is up.
    pub open spec fn spec_default() -> RepeatKeyState {
        RepeatKeyState { pressed: false, pressed_at: 0, next_repeat_at: 0 }
    }
}

impl Default for RepeatKeyState {
    fn default() -> (r: Self)
        ensures
            r == RepeatKeyState::spec_default(),
    {
        Self { pressed: false, pressed_at: 0, next_repeat_at: 0 }
    }
}

/// The repeat state of the shift keys and the soft-drop key, and which
/// shift direction currently repeats.
#[derive(Debug, Clone, Copy, PartialEq, Eq, Structural)]
pub struct InputRepeatState {
    pub left: RepeatKeyState,
    pub right: RepeatKeyState,
    pub soft_drop: RepeatKeyState,
    pub active_horizontal: Option<HorizontalDirection>,
}

impl InputRepeatState {
    /// Every key up, no direction repeating.
    pub open spec fn spec_default() -> InputRepeatState {
        InputRepeatState {
            left: RepeatKeyState::spec_default(),
            right: RepeatKeyState::spec_default(),
            soft_drop: RepeatKeyState::spec_default(),
            active_horizontal: None,
        }
    }

    /// The state of the shift key for `direction`.
    pub open spec fn key(self, direction: HorizontalDirection) -> RepeatKeyState {
        match direction {
            HorizontalDirection::Left => self.left,
            HorizontalDirection::Right => self.right,
        }
    }

    /// `self` with the shift key for `direction` replaced by `k`.
    pub open spec fn with_key(self, direction: HorizontalDirection, k: RepeatKeyState) -> InputRepeatState {
        match direction {
            HorizontalDirection::Left => InputRepeatState { left: k, ..self },
            HorizontalDirection::Right => InputRepeatState { right: k, ..self },
        }
    }

    /// The state once the shift key for `direction` goes down at `now`.
    pub open spec fn spec_press_horizontal(
        self,
        direction: HorizontalDirection,
        now: u64,
        das_ms: u32,
        das_cancel: bool,
    ) -> InputRepeatState {
        InputRepeatState {
            active_horizontal: if das_cancel || !self.key(direction.spec_opposite()).pressed {
                Some(direction)
            } else {
                None
            },
            ..self.with_key(
                direction,
                RepeatKeyState { pressed: true, pressed_at: now, next_repeat_at: (now + das_ms) as u64 },
            )
        }
    }

    /// The state once the shift key for `direction` goes up.
    pub open spec fn spec_release_horizontal(self, direction: HorizontalDirection, das_ms: u32) -> InputRepeatState {
        let released = self.key(direction);
        let up = self.with_key(direction, RepeatKeyState { pressed: false, ..released });
        let other = direction.spec_opposite();
        if self.active_horizontal == Some(direction) {
            if up.key(other).pressed {
                InputRepeatState {
                    active_horizontal: Some(other),
                    ..up.with_key(
                        other,
                        RepeatKeyState {
                            pressed_at: released.pressed_at,
                            next_repeat_at: (released.pressed_at + das_ms) as u64,
                            ..up.key(other)
                        },
                    )
                }
            } else {
                InputRepeatState { active_horizontal: None, ..up }
            }
        } else if !up.left.pressed && !up.right.pressed {
            InputRepeatState { active_horizontal: None, ..up }
        } else {
            up
        }
    }

    /// Forgets every key.
    pub fn clear(&mut self)
        ensures
            *final(self) == InputRepeatState::spec_default(),
    {
        *self = Self::default();
    }

    /// The shift key for `direction`, to change in place.
    pub fn horizontal_mut(&mut self, direction: HorizontalDirection) -> (r: &mut RepeatKeyState)
        ensures
            *r == old(self).key(direction),
            *final(self) == old(self).with_key(direction, *final(r)),
    {
        match direction {
            HorizontalDirection::Left => &mut self.left,
            HorizontalDirection::Right => &mut self.right,
        }
    }

    /// The shift key for `direction`.
    fn horizontal(&self, direction: HorizontalDirection) -> (r: &RepeatKeyState)
        ensures
            *r == self.key(direction),
    {
        match direction {
            HorizontalDirection::Left => &self.left,
            HorizontalDirection::Right => &self.right,
        }
    }

    /// The shift key for `direction` goes down at `now`; it first repeats
    /// after `das_ms`. It takes over the repeat unless the other shift key
    /// is held and `das_cancel` is off, in which case neither repeats.
    pub fn press_horizontal(&mut self, direction: HorizontalDirection, now: u64, das_ms: u32, das_cancel: bool)
        requires
            now + das_ms <= u64::MAX,
        ensures
            *final(self) == old(self).spec_press_horizontal(direction, now, das_ms, das_cancel),
    {
        let opposite_pressed = self.horizontal(direction.opposite()).pressed;
        let key_state = self.horizontal_mut(direction);
        key_state.pressed = true;
        key_state.pressed_at = now;
        key_state.next_repeat_at = now + das_ms as u64;
        self.active_horizontal = if das_cancel || !opposite_pressed {
            Some(direction)
        } else {
            None
        };
    }

    /// The shift key for `direction` goes up. If it was repeating and the
    /// other shift key is still held, the other key takes over the repeat
    /// with this key's press time (first repeat `das_ms` after it);
    /// otherwise no direction repeats once both keys are up.
    pub fn release_horizontal(&mut self, direction: HorizontalDirection, das_ms: u32)
        requires
            old(self).active_horizontal == Some(direction) && old(self).key(
                direction.spec_opposite(),
            ).pressed ==> old(self).key(direction).pressed_at + das_ms <= u64::MAX,
        ensures
            *final(self) == old(self).spec_release_horizontal(direction, das_ms),
    {
        let released = *self.horizontal(direction);
        self.horizontal_mut(direction).pressed = false;
        if self.active_horizontal == Some(direction) {
            let opposite = direction.opposite();
            if self.horizontal(opposite).pressed {
                let opposite_state = self.horizontal_mut(opposite);
                opposite_state.pressed_at = released.pressed_at;
                opposite_state.next_repeat_at = released.pressed_at + das_ms as u64;
                self.active_horizontal = Some(opposite);
            } else {
                self.active_horizontal = None;
            }
        } else if !self.left.pressed && !self.right.pressed {
            self.active_horizontal = None;
        }
    }

    /// The soft-drop key goes down at `now`; it first repeats after
    /// `sdd_ms`.
    pub fn press_soft_drop(&mut self, now: u64, sdd_ms: u32)
        requires
            now + sdd_ms <= u64::MAX,
        ensures
            *final(self) == (InputRepeatState {
                soft_drop: RepeatKeyState {
                    pressed: true,
                    pressed_at: now,
                    next_repeat_at: (now + sdd_ms) as u64,
                },
                ..*old(self)
            }),
    {
        self.soft_drop.pressed = true;
        self.soft_drop.pressed_at = now;
        self.soft_drop.next_repeat_at = now + sdd_ms as u64;
    }

    /// The soft-drop key goes up.
    pub fn release_soft_drop(&mut self)
        ensures
            *final(self) == (InputRepeatState {
                soft_drop: RepeatKeyState { pressed: false, ..old(self).soft_drop },
                ..*old(self)
            }),
    {
        self.soft_drop.pressed = false;
    }
}

impl Default for InputRepeatState {
    fn default() -> (r: Self)
        ensures
            r == InputRepeatState::spec_default(),
    {
        Self {
            left: RepeatKeyState::default(),
            right: RepeatKeyState::default(),
            soft_drop: RepeatKeyState::default(),
            active_horizontal: None,
        }
    }
}

} // verus!
