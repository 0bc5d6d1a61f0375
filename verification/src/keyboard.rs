//! Keyboard state: which of the camera-movement keys are held down, and the
//! mapping from browser key codes to keys.

use vstd::prelude::*;

verus! {

/// The keys the application distinguishes, named by their browser key code
/// (digits 48..=57, letters 65..=90).
#[derive(Copy, Clone, PartialEq, Eq, Structural, Debug)]
pub enum KeyCode {
    Zero,
    One,
    Two,
    Three,
    Four,
    Five,
    Six,
    Seven,
    Eight,
    Nine,
    A,
    B,
    C,
    D,
    E,
    F,
    G,
    H,
    I,
    J,
    K,
    L,
    M,
    N,
    O,
    P,
    Q,
    R,
    S,
    T,
    U,
    V,
    W,
    X,
    Y,
    Z,
}

/// The browser key code of a key.
pub open spec fn key_code_value(k: KeyCode) -> u32 {
    match k {
        KeyCode::Zero => 48,
        KeyCode::One => 49,
        KeyCode::Two => 50,
        KeyCode::Three => 51,
        KeyCode::Four => 52,
        KeyCode::Five => 53,
        KeyCode::Six => 54,
        KeyCode::Seven => 55,
        KeyCode::Eight => 56,
        KeyCode::Nine => 57,
        KeyCode::A => 65,
        KeyCode::B => 66,
        KeyCode::C => 67,
        KeyCode::D => 68,
        KeyCode::E => 69,
        KeyCode::F => 70,
        KeyCode::G => 71,
        KeyCode::H => 72,
        KeyCode::I => 73,
        KeyCode::J => 74,
        KeyCode::K => 75,
        KeyCode::L => 76,
        KeyCode::M => 77,
        KeyCode::N => 78,
        KeyCode::O => 79,
        KeyCode::P => 80,
        KeyCode::Q => 81,
        KeyCode::R => 82,
        KeyCode::S => 83,
        KeyCode::T => 84,
        KeyCode::U => 85,
        KeyCode::V => 86,
        KeyCode::W => 87,
        KeyCode::X => 88,
        KeyCode::Y => 89,
        KeyCode::Z => 90,
    }
}

impl KeyCode {
    /// The key a browser key code names, if any: exactly the digit and
    /// letter codes are mapped.
    pub fn from_u32(value: u32) -> (r: Option<KeyCode>)
        ensures
            r is Some <==> (48 <= value <= 57 || 65 <= value <= 90),
            r matches Some(k) ==> key_code_value(k) == value,
    {
        match value {
            48 => Some(KeyCode::Zero),
            49 => Some(KeyCode::One),
            50 => Some(KeyCode::Two),
            51 => Some(KeyCode::Three),
            52 => Some(KeyCode::Four),
            53 => Some(KeyCode::Five),
            54 => Some(KeyCode::Six),
            55 => Some(KeyCode::Seven),
            56 => Some(KeyCode::Eight),
            57 => Some(KeyCode::Nine),
            65 => Some(KeyCode::A),
            66 => Some(KeyCode::B),
            67 => Some(KeyCode::C),
            68 => Some(KeyCode::D),
            69 => Some(KeyCode::E),
            70 => Some(KeyCode::F),
            71 => Some(KeyCode::G),
            72 => Some(KeyCode::H),
            73 => Some(KeyCode::I),
            74 => Some(KeyCode::J),
            75 => Some(KeyCode::K),
            76 => Some(KeyCode::L),
            77 => Some(KeyCode::M),
            78 => Some(KeyCode::N),
            79 => Some(KeyCode::O),
            80 => Some(KeyCode::P),
            81 => Some(KeyCode::Q),
            82 => Some(KeyCode::R),
            83 => Some(KeyCode::S),
            84 => Some(KeyCode::T),
            85 => Some(KeyCode::U),
            86 => Some(KeyCode::V),
            87 => Some(KeyCode::W),
            88 => Some(KeyCode::X),
            89 => Some(KeyCode::Y),
            90 => Some(KeyCode::Z),
            _ => None,
        }
    }
}

/// Which of the four camera-movement keys are held down. Every other key is
/// ignored: it never reads as pressed and pressing it changes nothing.
#[derive(Copy, Clone, PartialEq, Eq, Structural, Debug)]
pub struct Keyboard {
    w: bool,
    s: bool,
    a: bool,
    d: bool,
}

impl Keyboard {
    /// Whether a key reads as pressed; only W, A, S and D are tracked.
    pub closed spec fn pressed_spec(self, key_code: KeyCode) -> bool {
        match key_code {
            KeyCode::W => self.w,
            KeyCode::A => self.a,
            KeyCode::S => self.s,
            KeyCode::D => self.d,
            _ => false,
        }
    }

    /// A key that is not tracked never reads as pressed.
    pub proof fn lemma_untracked_never_pressed(self, key_code: KeyCode)
        requires
            key_code != KeyCode::W,
            key_code != KeyCode::A,
            key_code != KeyCode::S,
            key_code != KeyCode::D,
        ensures
            !self.pressed_spec(key_code),
    {
    }

    /// Whether the key is currently held down.
    pub fn get_pressed(&self, key_code: KeyCode) -> (r: bool)
        ensures
            r == self.pressed_spec(key_code),
    {
        match key_code {
            KeyCode::W => self.w,
            KeyCode::A => self.a,
            KeyCode::S => self.s,
            KeyCode::D => self.d,
            _ => false,
        }
    }

    /// Records a press or release of the key: that key's state becomes
    /// `pressed`, every other key keeps its state, and an untracked key
    /// changes nothing.
    pub fn set_pressed(&mut self, key_code: KeyCode, pressed: bool)
        ensures
            set_pressed_post(*old(self), *final(self), key_code, pressed),
    {
        match key_code {
            KeyCode::W => self.w = pressed,
            KeyCode::A => self.a = pressed,
            KeyCode::S => self.s = pressed,
            KeyCode::D => self.d = pressed,
            _ => (),
        }
    }
}

/// Exactly what recording a press or release does: the key's state becomes
/// `pressed` if the key is tracked, and every other key keeps its state.
pub open spec fn set_pressed_post(pre: Keyboard, post: Keyboard, key_code: KeyCode, pressed: bool) -> bool {
    forall|c: KeyCode|
        post.pressed_spec(c) == if c == key_code && (c == KeyCode::W || c == KeyCode::A || c
            == KeyCode::S || c == KeyCode::D) {
            pressed
        } else {
            pre.pressed_spec(c)
        }
}

impl Default for Keyboard {
    /// All keys start released.
    fn default() -> (k: Keyboard)
        ensures
            forall|c: KeyCode| !k.pressed_spec(c),
    {
        Keyboard { w: false, s: false, a: false, d: false }
    }
}

} // verus!
