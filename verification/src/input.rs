//! Keyboard and mouse state with per-frame edge detection.
//!
//! Keys and mouse buttons are identified by integer codes; the cursor position
//! is kept as the bits of its two `f32` coordinates.
use std::collections::HashSet;
use vstd::prelude::*;

verus! {

broadcast use vstd::std_specs::hash::group_hash_axioms;

/// Code of the Backspace key.
pub const KEY_BACKSPACE: u32 = 8;
/// Code of the Delete key.
pub const KEY_DELETE: u32 = 127;
/// Code of the backtick (`` ` ``) key.
pub const KEY_BACKQUOTE: u32 = 96;
/// Code of the A key (letter keys use their upper-case ASCII code).
pub const KEY_A: u32 = 65;
/// Code of the B key.
pub const KEY_B: u32 = 66;
/// Code of the E key.
pub const KEY_E: u32 = 69;
/// Code of the G key.
pub const KEY_G: u32 = 71;
/// Code of the H key.
pub const KEY_H: u32 = 72;
/// Code of the P key.
pub const KEY_P: u32 = 80;
/// Code of the V key.
pub const KEY_V: u32 = 86;
/// Code of the Z key.
pub const KEY_Z: u32 = 90;
/// Code of the F1 key.
pub const KEY_F1: u32 = 0x101;
/// Code of the left Shift key.
pub const KEY_SHIFT_LEFT: u32 = 0x110;
/// Code of the left Control key.
pub const KEY_CONTROL_LEFT: u32 = 0x111;
/// Code of the right Control key.
pub const KEY_CONTROL_RIGHT: u32 = 0x112;
/// Code of the left Super (Command) key.
pub const KEY_SUPER_LEFT: u32 = 0x113;
/// Code of the right Super (Command) key.
pub const KEY_SUPER_RIGHT: u32 = 0x114;
/// Code of the left mouse button.
pub const MOUSE_LEFT: u32 = 0;

/// What one button set (keys or mouse buttons) looks like after a press of `b`:
/// `b` is held, and it is a new press exactly when it was not held before.
pub open spec fn pressed_after(down: Set<u32>, just: Set<u32>, b: u32) -> (Set<u32>, Set<u32>) {
    (down.insert(b), if down.contains(b) { just } else { just.insert(b) })
}

/// The current state of keyboard and mouse input.
pub struct InputState {
    pressed_keys: HashSet<u32>,
    just_pressed_keys: HashSet<u32>,
    just_released_keys: HashSet<u32>,
    mouse_pos_bits: [u32; 2],
    mouse_buttons: HashSet<u32>,
    just_pressed_buttons: HashSet<u32>,
    just_released_buttons: HashSet<u32>,
}

impl InputState {
    /// The keys held down.
    pub closed spec fn keys_down(&self) -> Set<u32> {
        self.pressed_keys@
    }

    /// The keys pressed since the frame began.
    pub closed spec fn keys_just_pressed(&self) -> Set<u32> {
        self.just_pressed_keys@
    }

    /// The keys released since the frame began.
    pub closed spec fn keys_just_released(&self) -> Set<u32> {
        self.just_released_keys@
    }

    /// The mouse buttons held down.
    pub closed spec fn buttons_down(&self) -> Set<u32> {
        self.mouse_buttons@
    }

    /// The mouse buttons pressed since the frame began.
    pub closed spec fn buttons_just_pressed(&self) -> Set<u32> {
        self.just_pressed_buttons@
    }

    /// The mouse buttons released since the frame began.
    pub closed spec fn buttons_just_released(&self) -> Set<u32> {
        self.just_released_buttons@
    }

    /// The cursor position, as the bits of its `f32` coordinates.
    pub closed spec fn cursor_bits(&self) -> [u32; 2] {
        self.mouse_pos_bits
    }

    /// Whether the two states hold the same mouse part (buttons and cursor).
    pub open spec fn same_mouse(&self, other: &InputState) -> bool {
        &&& self.buttons_down() == other.buttons_down()
        &&& self.buttons_just_pressed() == other.buttons_just_pressed()
        &&& self.buttons_just_released() == other.buttons_just_released()
        &&& self.cursor_bits() == other.cursor_bits()
    }

    /// Whether the two states hold the same keyboard part.
    pub open spec fn same_keys(&self, other: &InputState) -> bool {
        &&& self.keys_down() == other.keys_down()
        &&& self.keys_just_pressed() == other.keys_just_pressed()
        &&& self.keys_just_released() == other.keys_just_released()
    }

    /// A state with nothing held, nothing pressed or released, and the cursor at the origin.
    pub open spec fn is_initial(&self) -> bool {
        &&& self.keys_down() == Set::<u32>::empty()
        &&& self.keys_just_pressed() == Set::<u32>::empty()
        &&& self.keys_just_released() == Set::<u32>::empty()
        &&& self.buttons_down() == Set::<u32>::empty()
        &&& self.buttons_just_pressed() == Set::<u32>::empty()
        &&& self.buttons_just_released() == Set::<u32>::empty()
        &&& self.cursor_bits() == [0u32, 0u32]
    }

    /// A new input state: nothing held and the cursor at the origin.
    pub fn new() -> (s: InputState)
        ensures
            s.is_initial(),
    {
        InputState {
            pressed_keys: HashSet::new(),
            just_pressed_keys: HashSet::new(),
            just_released_keys: HashSet::new(),
            mouse_pos_bits: [0u32, 0u32],
            mouse_buttons: HashSet::new(),
            just_pressed_buttons: HashSet::new(),
            just_released_buttons: HashSet::new(),
        }
    }

    /// Starts a frame: forgets what was pressed or released, keeps what is held.
    pub fn begin_frame(&mut self)
        ensures
            final(self).keys_down() == old(self).keys_down(),
            final(self).buttons_down() == old(self).buttons_down(),
            final(self).cursor_bits() == old(self).cursor_bits(),
            final(self).keys_just_pressed() == Set::<u32>::empty(),
            final(self).keys_just_released() == Set::<u32>::empty(),
            final(self).buttons_just_pressed() == Set::<u32>::empty(),
            final(self).buttons_just_released() == Set::<u32>::empty(),
    {
        self.just_pressed_keys.clear();
        self.just_released_keys.clear();
        self.just_pressed_buttons.clear();
        self.just_released_buttons.clear();
    }

    /// Records a key going down (`pressed`) or up.
    pub fn handle_keyboard_event(&mut self, key: u32, pressed: bool)
        ensures
            final(self).same_mouse(&*old(self)),
            pressed ==> {
                &&& (final(self).keys_down(), final(self).keys_just_pressed()) == pressed_after(
                    old(self).keys_down(),
                    old(self).keys_just_pressed(),
                    key,
                )
                &&& final(self).keys_just_released() == old(self).keys_just_released()
            },
            !pressed ==> {
                &&& final(self).keys_down() == old(self).keys_down().remove(key)
                &&& final(self).keys_just_released() == old(self).keys_just_released().insert(key)
                &&& final(self).keys_just_pressed() == old(self).keys_just_pressed()
            },
    {
        if pressed {
            if !self.pressed_keys.contains(&key) {
                self.just_pressed_keys.insert(key);
            }
            self.pressed_keys.insert(key);
        } else {
            self.pressed_keys.remove(&key);
            self.just_released_keys.insert(key);
        }
    }

    /// Records a mouse button going down (`pressed`) or up.
    pub fn handle_mouse_input(&mut self, pressed: bool, button: u32)
        ensures
            final(self).same_keys(&*old(self)),
            final(self).cursor_bits() == old(self).cursor_bits(),
            pressed ==> {
                &&& (final(self).buttons_down(), final(self).buttons_just_pressed())
                    == pressed_after(
                    old(self).buttons_down(),
                    old(self).buttons_just_pressed(),
                    button,
                )
                &&& final(self).buttons_just_released() == old(self).buttons_just_released()
            },
            !pressed ==> {
                &&& final(self).buttons_down() == old(self).buttons_down().remove(button)
                &&& final(self).buttons_just_released() == old(
                    self,
                ).buttons_just_released().insert(button)
                &&& final(self).buttons_just_pressed() == old(self).buttons_just_pressed()
            },
    {
        if pressed {
            if !self.mouse_buttons.contains(&button) {
                self.just_pressed_buttons.insert(button);
            }
            self.mouse_buttons.insert(button);
        } else {
            self.mouse_buttons.remove(&button);
            self.just_released_buttons.insert(button);
        }
    }

    /// Records the cursor position (the bits of its two `f32` coordinates).
    pub fn handle_cursor_moved(&mut self, position_bits: [u32; 2])
        ensures
            final(self).same_keys(&*old(self)),
            final(self).buttons_down() == old(self).buttons_down(),
            final(self).buttons_just_pressed() == old(self).buttons_just_pressed(),
            final(self).buttons_just_released() == old(self).buttons_just_released(),
            final(self).cursor_bits() == position_bits,
    {
        self.mouse_pos_bits = position_bits;
    }

    /// Whether the key is held down.
    pub fn is_key_down(&self, key: u32) -> (b: bool)
        ensures
            b == self.keys_down().contains(key),
    {
        self.pressed_keys.contains(&key)
    }

    /// Whether the key was pressed this frame.
    pub fn is_key_just_pressed(&self, key: u32) -> (b: bool)
        ensures
            b == self.keys_just_pressed().contains(key),
    {
        self.just_pressed_keys.contains(&key)
    }

    /// Whether the key was released this frame.
    pub fn is_key_just_released(&self, key: u32) -> (b: bool)
        ensures
            b == self.keys_just_released().contains(key),
    {
        self.just_released_keys.contains(&key)
    }

    /// The set of keys held down.
    pub fn pressed_keys(&self) -> (s: &HashSet<u32>)
        ensures
            s@ == self.keys_down(),
    {
        &self.pressed_keys
    }

    /// The cursor position, as the bits of its two `f32` coordinates.
    pub fn mouse_pos_bits(&self) -> (p: [u32; 2])
        ensures
            p == self.cursor_bits(),
    {
        self.mouse_pos_bits
    }

    /// Whether the mouse button is held down.
    pub fn is_mouse_down(&self, button: u32) -> (b: bool)
        ensures
            b == self.buttons_down().contains(button),
    {
        self.mouse_buttons.contains(&button)
    }

    /// Whether the mouse button was pressed this frame.
    pub fn is_mouse_just_pressed(&self, button: u32) -> (b: bool)
        ensures
            b == self.buttons_just_pressed().contains(button),
    {
        self.just_pressed_buttons.contains(&button)
    }

    /// Whether the mouse button was released this frame.
    pub fn is_mouse_just_released(&self, button: u32) -> (b: bool)
        ensures
            b == self.buttons_just_released().contains(button),
    {
        self.just_released_buttons.contains(&button)
    }
}

impl Default for InputState {
    fn default() -> (s: InputState)
        ensures
            s.is_initial(),
    {
        InputState::new()
    }
}

/// A key that is already held is not pressed anew: pressing it again changes
/// neither the held set nor the keys pressed this frame.
pub proof fn lemma_press_held_is_no_new_press(down: Set<u32>, just: Set<u32>, b: u32)
    requires
        down.contains(b),
    ensures
        pressed_after(down, just, b) == (down, just),
{
    assert(down.insert(b) =~= down);
}

/// Pressing twice is pressing once: the second press of a button within a
/// frame leaves the state as the first left it.
pub proof fn lemma_press_idempotent(down: Set<u32>, just: Set<u32>, b: u32)
    ensures
        pressed_after(pressed_after(down, just, b).0, pressed_after(down, just, b).1, b)
            == pressed_after(down, just, b),
{
    lemma_press_held_is_no_new_press(
        pressed_after(down, just, b).0,
        pressed_after(down, just, b).1,
        b,
    );
}

/// A press adds at most the pressed button to the buttons pressed this frame
/// and keeps every button already pressed this frame; it holds the button,
/// and keeps every button already held.
pub proof fn lemma_press_keeps_others(down: Set<u32>, just: Set<u32>, b: u32, k: u32)
    ensures
        just.contains(k) ==> pressed_after(down, just, b).1.contains(k),
        pressed_after(down, just, b).1.contains(k) ==> just.contains(k) || k == b,
        down.contains(k) ==> pressed_after(down, just, b).0.contains(k),
        pressed_after(down, just, b).0.contains(k) ==> down.contains(k) || k == b,
        pressed_after(down, just, b).0.contains(b),
{
}

/// Two fresh presses in one frame are both reported: after pressing `a` and
/// then `b`, neither held before, both are pressed this frame.
pub proof fn lemma_two_presses_both_reported(down: Set<u32>, just: Set<u32>, a: u32, b: u32)
    requires
        !down.contains(a),
        !down.contains(b),
    ensures
        ({
            let first = pressed_after(down, just, a);
            let second = pressed_after(first.0, first.1, b);
            &&& second.1.contains(a)
            &&& second.1.contains(b)
        }),
{
    lemma_press_keeps_others(down, just, a, a);
    let first = pressed_after(down, just, a);
    lemma_press_keeps_others(first.0, first.1, b, a);
    lemma_press_keeps_others(first.0, first.1, b, b);
}

/// A press of a button that was not held is reported as a press this frame.
pub proof fn lemma_fresh_press_is_just_pressed(down: Set<u32>, just: Set<u32>, b: u32)
    requires
        !down.contains(b),
    ensures
        pressed_after(down, just, b).1.contains(b),
        pressed_after(down, just, b).0.contains(b),
{
}

} // verus!
