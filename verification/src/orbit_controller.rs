//! Input state of the orbit camera controller: which orbit keys are held,
//! which mouse buttons are down, and whether auto-orbit is running.
//!
//! The camera motion itself (angles, distance) is applied by the caller from
//! this state.

use vstd::prelude::*;

verus! {

/// The keys that drive the orbit camera: W/S pitch, A/D yaw, Q/E zoom.
#[derive(Debug, Clone, Copy, PartialEq, Eq, Structural)]
pub enum OrbitKey {
    W,
    A,
    S,
    D,
    Q,
    E,
}

/// A mouse button as the controller sees it.
#[derive(Debug, Clone, Copy, PartialEq, Eq, Structural)]
pub enum PointerButton {
    Left,
    Right,
    Other,
}

/// What a cursor movement does with the buttons currently down.
#[derive(Debug, Clone, Copy, PartialEq, Eq, Structural)]
pub enum DragAction {
    /// Left button: orbit around the target
    Orbit,
    /// Right button: pan the target
    Pan,
    /// No button: only the cursor position is tracked
    Track,
}

/// The outcome of a mouse button event.
#[derive(Debug, Clone, Copy, PartialEq, Eq, Structural)]
pub struct ButtonOutcome {
    /// Whether the controller used the event
    pub consumed: bool,
    /// Whether the last cursor position must be forgotten (a button was released)
    pub forget_cursor: bool,
}

/// Button and key state of the orbit controller; `held_*` flag the held orbit keys.
pub struct OrbitInputState {
    pub left_pressed: bool,
    pub right_pressed: bool,
    pub auto_orbit: bool,
    pub held_w: bool,
    pub held_a: bool,
    pub held_s: bool,
    pub held_d: bool,
    pub held_q: bool,
    pub held_e: bool,
}

impl OrbitInputState {
    /// Whether `key` is held.
    pub open spec fn holds(&self, key: OrbitKey) -> bool {
        match key {
            OrbitKey::W => self.held_w,
            OrbitKey::A => self.held_a,
            OrbitKey::S => self.held_s,
            OrbitKey::D => self.held_d,
            OrbitKey::Q => self.held_q,
            OrbitKey::E => self.held_e,
        }
    }

    /// The set of held keys.
    pub open spec fn held(&self) -> Set<OrbitKey> {
        Set::new(|k: OrbitKey| self.holds(k))
    }

    /// No buttons down, no keys held, auto-orbit off.
    pub fn new() -> (s: OrbitInputState)
        ensures
            !s.left_pressed,
            !s.right_pressed,
            !s.auto_orbit,
            s.held() == Set::<OrbitKey>::empty(),
    {
        let s = OrbitInputState {
            left_pressed: false,
            right_pressed: false,
            auto_orbit: false,
            held_w: false,
            held_a: false,
            held_s: false,
            held_d: false,
            held_q: false,
            held_e: false,
        };
        assert(s.held() =~= Set::<OrbitKey>::empty());
        s
    }

    /// A press of an orbit key holds it and stops auto-orbit; a release lets it go.
    pub fn handle_key(&mut self, key: OrbitKey, pressed: bool)
        ensures
            final(self).held() == (if pressed {
                old(self).held().insert(key)
            } else {
                old(self).held().remove(key)
            }),
            final(self).auto_orbit == (old(self).auto_orbit && !pressed),
            final(self).left_pressed == old(self).left_pressed,
            final(self).right_pressed == old(self).right_pressed,
    {
        match key {
            OrbitKey::W => self.held_w = pressed,
            OrbitKey::A => self.held_a = pressed,
            OrbitKey::S => self.held_s = pressed,
            OrbitKey::D => self.held_d = pressed,
            OrbitKey::Q => self.held_q = pressed,
            OrbitKey::E => self.held_e = pressed,
        }
        if pressed {
            self.auto_orbit = false;
        }
        proof {
            if pressed {
                assert(final(self).held() =~= old(self).held().insert(key));
            } else {
                assert(final(self).held() =~= old(self).held().remove(key));
            }
        }
    }

    /// A mouse button event. Events the interface wants, and buttons other
    /// than left and right, are left alone. A left press stops auto-orbit; a
    /// release of either button forgets the cursor position.
    pub fn handle_button(&mut self, button: PointerButton, pressed: bool, ui_wants_input: bool) -> (out:
        ButtonOutcome)
        ensures
            out.consumed == (!ui_wants_input && button != PointerButton::Other),
            out.forget_cursor == (out.consumed && !pressed),
            final(self).left_pressed == (if out.consumed && button == PointerButton::Left {
                pressed
            } else {
                old(self).left_pressed
            }),
            final(self).right_pressed == (if out.consumed && button == PointerButton::Right {
                pressed
            } else {
                old(self).right_pressed
            }),
            final(self).auto_orbit == (old(self).auto_orbit && !(out.consumed && button
                == PointerButton::Left && pressed)),
            final(self).held() == old(self).held(),
    {
        if ui_wants_input {
            return ButtonOutcome { consumed: false, forget_cursor: false };
        }
        match button {
            PointerButton::Left => {
                self.left_pressed = pressed;
                if pressed {
                    self.auto_orbit = false;
                }
            },
            PointerButton::Right => {
                self.right_pressed = pressed;
            },
            PointerButton::Other => {
                return ButtonOutcome { consumed: false, forget_cursor: false };
            },
        }
        proof {
            assert(final(self).held() =~= old(self).held());
        }
        ButtonOutcome { consumed: true, forget_cursor: !pressed }
    }

    /// What a cursor movement does: orbit with the left button down, else pan
    /// with the right button down, else nothing but tracking.
    pub fn drag_action(&self) -> (a: DragAction)
        ensures
            a == (if self.left_pressed {
                DragAction::Orbit
            } else if self.right_pressed {
                DragAction::Pan
            } else {
                DragAction::Track
            }),
    {
        if self.left_pressed {
            DragAction::Orbit
        } else if self.right_pressed {
            DragAction::Pan
        } else {
            DragAction::Track
        }
    }

    /// Returns true if any orbit key is currently held.
    pub fn has_held_keys(&self) -> (r: bool)
        ensures
            r == (self.held() != Set::<OrbitKey>::empty()),
    {
        let r = self.held_w || self.held_a || self.held_s || self.held_d || self.held_q
            || self.held_e;
        proof {
            if !r {
                assert(self.held() =~= Set::<OrbitKey>::empty());
            } else {
                let k = if self.held_w {
                    OrbitKey::W
                } else if self.held_a {
                    OrbitKey::A
                } else if self.held_s {
                    OrbitKey::S
                } else if self.held_d {
                    OrbitKey::D
                } else if self.held_q {
                    OrbitKey::Q
                } else {
                    OrbitKey::E
                };
                assert(self.held().contains(k));
            }
        }
        r
    }

    /// Check if a specific key is currently held.
    pub fn is_key_held(&self, key: OrbitKey) -> (r: bool)
        ensures
            r == self.held().contains(key),
    {
        match key {
            OrbitKey::W => self.held_w,
            OrbitKey::A => self.held_a,
            OrbitKey::S => self.held_s,
            OrbitKey::D => self.held_d,
            OrbitKey::Q => self.held_q,
            OrbitKey::E => self.held_e,
        }
    }
}

/// Pressing and then releasing a key leaves the held set as it was without
/// that key, so a key that was not held before is not held after.
pub proof fn law_press_release(held: Set<OrbitKey>, key: OrbitKey)
    ensures
        held.insert(key).remove(key) == held.remove(key),
        !held.contains(key) ==> held.insert(key).remove(key) == held,
{
    assert(held.insert(key).remove(key) =~= held.remove(key));
    if !held.contains(key) {
        assert(held.remove(key) =~= held);
    }
}

} // verus!
