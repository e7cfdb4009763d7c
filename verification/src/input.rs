//! Edge-aware digital input state.
//!
//! A button remembers its value from the previous tick, so a single `set`
//! per tick is enough to answer "pressed", "just pressed" and "just
//! released". Calling `set` more than once per tick corrupts the remembered
//! previous value, which is why its contract pins down exactly how the pair
//! of values evolves.

use vstd::prelude::*;

use crate::vector2::bounded_pair;
use crate::vector2::Vector2;
use crate::math::SCALE;

verus! {

#[derive(Clone, Copy, Debug, PartialEq, Eq, Structural)]
pub struct KaInputButton {
    pub current: bool,
    pub previous: bool,
}

/// The button state after feeding `value` for a new tick.
pub open spec fn button_set_spec(b: KaInputButton, value: bool) -> KaInputButton {
    KaInputButton { current: value, previous: b.current }
}

pub open spec fn just_pressed_spec(b: KaInputButton) -> bool {
    !b.previous && b.current
}

pub open spec fn just_released_spec(b: KaInputButton) -> bool {
    b.previous && !b.current
}

impl KaInputButton {
    /// Clears the button state, setting current and previous to deactivated.
    pub fn clear(&mut self)
        ensures
            final(self).current == false,
            final(self).previous == false,
    {
        self.current = false;
        self.previous = false;
    }

    /// Feeds the current tick's raw value; call exactly once per tick.
    pub fn set(&mut self, value: bool)
        ensures
            *final(self) == button_set_spec(*old(self), value),
    {
        self.previous = self.current;
        self.current = value;
    }

    /// Is the input currently activated?
    pub fn pressed(&self) -> (r: bool)
        ensures
            r == self.current,
    {
        self.current
    }

    /// Was the input activated this tick?
    pub fn just_pressed(&self) -> (r: bool)
        ensures
            r == just_pressed_spec(*self),
    {
        !self.previous && self.current
    }

    /// Was the input deactivated this tick?
    pub fn just_released(&self) -> (r: bool)
        ensures
            r == just_released_spec(*self),
    {
        self.previous && !self.current
    }
}

impl Default for KaInputButton {
    /// A released button with no remembered activation.
    fn default() -> (r: KaInputButton)
        ensures
            r.current == false,
            r.previous == false,
    {
        KaInputButton { current: false, previous: false }
    }
}

/// Edge detection: when `set` is called once per tick, the button reads as
/// just-pressed exactly on the one tick whose fed value rose from false to
/// true, and as just-released exactly on a true-to-false transition.
pub proof fn lemma_edge_detection(b: KaInputButton, v1: bool, v2: bool)
    ensures
        just_pressed_spec(button_set_spec(button_set_spec(b, v1), v2)) == (!v1 && v2),
        just_released_spec(button_set_spec(button_set_spec(b, v1), v2)) == (v1 && !v2),
{
}

/// Per-tick digital input consumed by the controller: a movement axis pair
/// in milli-units and the jump button.
#[derive(Clone, Copy, Debug, PartialEq, Eq, Structural)]
pub struct KaInput {
    pub movement: Vector2,
    pub jump: KaInputButton,
}

impl KaInput {
    /// Movement axes are normalized digital input: at most one unit long
    /// per component.
    pub open spec fn valid(self) -> bool {
        bounded_pair(self.movement@, SCALE as int)
    }
}

impl Default for KaInput {
    /// No movement, jump released.
    fn default() -> (r: KaInput)
        ensures
            r.movement@ == (0int, 0int),
            r.jump.current == false,
            r.jump.previous == false,
            r.valid(),
    {
        KaInput { movement: Vector2 { x: 0, y: 0 }, jump: KaInputButton { current: false, previous: false } }
    }
}

} // verus!
