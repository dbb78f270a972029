//! Which keys and mouse buttons are down, and which went down since the last frame.

use vstd::prelude::*;
use std::collections::HashSet;

verus! {

broadcast use vstd::std_specs::hash::group_hash_axioms;

/// The keys and mouse buttons that are held, each known by a number of the
/// caller's choosing, and those among them that were first seen held since the
/// just-pressed sets were last cleared.
pub struct InputState {
    pub keys_pressed: HashSet<u32>,
    pub keys_just_pressed: HashSet<u32>,
    pub mouse_buttons_pressed: HashSet<u32>,
    pub mouse_buttons_just_pressed: HashSet<u32>,
}

impl InputState {
    /// No key and no button is held.
    pub fn new() -> (s: InputState)
        ensures
            s.keys_pressed@ == Set::<u32>::empty(),
            s.keys_just_pressed@ == Set::<u32>::empty(),
            s.mouse_buttons_pressed@ == Set::<u32>::empty(),
            s.mouse_buttons_just_pressed@ == Set::<u32>::empty(),
    {
        InputState {
            keys_pressed: HashSet::new(),
            keys_just_pressed: HashSet::new(),
            mouse_buttons_pressed: HashSet::new(),
            mouse_buttons_just_pressed: HashSet::new(),
        }
    }

    /// A key went down. It counts as just pressed only if it was not held already.
    pub fn pressed_key(&mut self, keycode: u32)
        ensures
            final(self).keys_pressed@ == old(self).keys_pressed@.insert(keycode),
            final(self).keys_just_pressed@ == if old(self).keys_pressed@.contains(keycode) {
                old(self).keys_just_pressed@
            } else {
                old(self).keys_just_pressed@.insert(keycode)
            },
            final(self).mouse_buttons_pressed@ == old(self).mouse_buttons_pressed@,
            final(self).mouse_buttons_just_pressed@ == old(self).mouse_buttons_just_pressed@,
    {
        if self.keys_pressed.insert(keycode) {
            self.keys_just_pressed.insert(keycode);
        }
    }

    /// A key came up.
    pub fn released_key(&mut self, keycode: u32)
        ensures
            final(self).keys_pressed@ == old(self).keys_pressed@.remove(keycode),
            final(self).keys_just_pressed@ == old(self).keys_just_pressed@,
            final(self).mouse_buttons_pressed@ == old(self).mouse_buttons_pressed@,
            final(self).mouse_buttons_just_pressed@ == old(self).mouse_buttons_just_pressed@,
    {
        self.keys_pressed.remove(&keycode);
    }

    /// A mouse button went down. It counts as just pressed only if it was not
    /// held already.
    pub fn pressed_mouse(&mut self, mouse_button: u32)
        ensures
            final(self).mouse_buttons_pressed@ == old(self).mouse_buttons_pressed@.insert(
                mouse_button,
            ),
            final(self).mouse_buttons_just_pressed@ == if old(
                self,
            ).mouse_buttons_pressed@.contains(mouse_button) {
                old(self).mouse_buttons_just_pressed@
            } else {
                old(self).mouse_buttons_just_pressed@.insert(mouse_button)
            },
            final(self).keys_pressed@ == old(self).keys_pressed@,
            final(self).keys_just_pressed@ == old(self).keys_just_pressed@,
    {
        if self.mouse_buttons_pressed.insert(mouse_button) {
            self.mouse_buttons_just_pressed.insert(mouse_button);
        }
    }

    /// A mouse button came up.
    pub fn released_mouse(&mut self, mouse_button: u32)
        ensures
            final(self).mouse_buttons_pressed@ == old(self).mouse_buttons_pressed@.remove(
                mouse_button,
            ),
            final(self).mouse_buttons_just_pressed@ == old(self).mouse_buttons_just_pressed@,
            final(self).keys_pressed@ == old(self).keys_pressed@,
            final(self).keys_just_pressed@ == old(self).keys_just_pressed@,
    {
        self.mouse_buttons_pressed.remove(&mouse_button);
    }

    /// Forgets what was just pressed; what is held stays held.
    pub fn clear_just_pressed(&mut self)
        ensures
            final(self).keys_just_pressed@ == Set::<u32>::empty(),
            final(self).mouse_buttons_just_pressed@ == Set::<u32>::empty(),
            final(self).keys_pressed@ == old(self).keys_pressed@,
            final(self).mouse_buttons_pressed@ == old(self).mouse_buttons_pressed@,
    {
        self.keys_just_pressed.clear();
        self.mouse_buttons_just_pressed.clear();
    }

    /// Whether the key is held.
    pub fn key_is_pressed(&self, keycode: u32) -> (held: bool)
        ensures
            held == self.keys_pressed@.contains(keycode),
    {
        self.keys_pressed.contains(&keycode)
    }

    /// Whether the key went down since the just-pressed sets were last cleared.
    pub fn key_was_just_pressed(&self, keycode: u32) -> (fresh: bool)
        ensures
            fresh == self.keys_just_pressed@.contains(keycode),
    {
        self.keys_just_pressed.contains(&keycode)
    }

    /// Whether the mouse button is held.
    pub fn mouse_is_pressed(&self, mouse_button: u32) -> (held: bool)
        ensures
            held == self.mouse_buttons_pressed@.contains(mouse_button),
    {
        self.mouse_buttons_pressed.contains(&mouse_button)
    }

    /// Whether the mouse button went down since the just-pressed sets were last
    /// cleared.
    pub fn mouse_was_just_pressed(&self, mouse_button: u32) -> (fresh: bool)
        ensures
            fresh == self.mouse_buttons_just_pressed@.contains(mouse_button),
    {
        self.mouse_buttons_just_pressed.contains(&mouse_button)
    }
}

} // verus!
