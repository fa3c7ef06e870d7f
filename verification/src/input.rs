//! Keyboard input: physical keys, scanned keyboard states, and input
//! events.
//!
//! A scanned keyboard state is a 64-bit word with one bit per physical
//! key; [`key_code`] fixes each key's bit position.  Events name what a
//! key press means once modifiers are applied.

use vstd::prelude::*;

verus! {

/// A physical key of the keyboard.
#[derive(Clone, Copy, PartialEq, Eq, Structural, Debug)]
pub enum Key {
    Left,
    Up,
    Down,
    Right,
    Okay,
    Back,
    Home,
    OnOff,
    Shift,
    Alpha,
    Xnt,
    Var,
    Toolbox,
    Backspace,
    Exp,
    Ln,
    Log,
    Imaginary,
    Comma,
    Power,
    Sine,
    Cosine,
    Tangent,
    Pi,
    Sqrt,
    Square,
    Seven,
    Eight,
    Nine,
    LeftParenthesis,
    RightParenthesis,
    Four,
    Five,
    Six,
    Multiplication,
    Division,
    One,
    Two,
    Three,
    Plus,
    Minus,
    Zero,
    Dot,
    Ee,
    Ans,
    Exe,
}

/// The bit position of a key in a scanned keyboard word.
pub open spec fn key_code(k: Key) -> u8 {
    match k {
        Key::Left => 0,
        Key::Up => 1,
        Key::Down => 2,
        Key::Right => 3,
        Key::Okay => 4,
        Key::Back => 5,
        Key::Home => 6,
        Key::OnOff => 8,
        Key::Shift => 12,
        Key::Alpha => 13,
        Key::Xnt => 14,
        Key::Var => 15,
        Key::Toolbox => 16,
        Key::Backspace => 17,
        Key::Exp => 18,
        Key::Ln => 19,
        Key::Log => 20,
        Key::Imaginary => 21,
        Key::Comma => 22,
        Key::Power => 23,
        Key::Sine => 24,
        Key::Cosine => 25,
        Key::Tangent => 26,
        Key::Pi => 27,
        Key::Sqrt => 28,
        Key::Square => 29,
        Key::Seven => 30,
        Key::Eight => 31,
        Key::Nine => 32,
        Key::LeftParenthesis => 33,
        Key::RightParenthesis => 34,
        Key::Four => 36,
        Key::Five => 37,
        Key::Six => 38,
        Key::Multiplication => 39,
        Key::Division => 40,
        Key::One => 42,
        Key::Two => 43,
        Key::Three => 44,
        Key::Plus => 45,
        Key::Minus => 46,
        Key::Zero => 48,
        Key::Dot => 49,
        Key::Ee => 50,
        Key::Ans => 51,
        Key::Exe => 52,
    }
}

impl Key {
    /// The key's bit position in a scanned keyboard word.
    pub fn code(&self) -> (r: u8)
        ensures
            r == key_code(*self),
            r < 64,
    {
        match self {
            Key::Left => 0,
            Key::Up => 1,
            Key::Down => 2,
            Key::Right => 3,
            Key::Okay => 4,
            Key::Back => 5,
            Key::Home => 6,
            Key::OnOff => 8,
            Key::Shift => 12,
            Key::Alpha => 13,
            Key::Xnt => 14,
            Key::Var => 15,
            Key::Toolbox => 16,
            Key::Backspace => 17,
            Key::Exp => 18,
            Key::Ln => 19,
            Key::Log => 20,
            Key::Imaginary => 21,
            Key::Comma => 22,
            Key::Power => 23,
            Key::Sine => 24,
            Key::Cosine => 25,
            Key::Tangent => 26,
            Key::Pi => 27,
            Key::Sqrt => 28,
            Key::Square => 29,
            Key::Seven => 30,
            Key::Eight => 31,
            Key::Nine => 32,
            Key::LeftParenthesis => 33,
            Key::RightParenthesis => 34,
            Key::Four => 36,
            Key::Five => 37,
            Key::Six => 38,
            Key::Multiplication => 39,
            Key::Division => 40,
            Key::One => 42,
            Key::Two => 43,
            Key::Three => 44,
            Key::Plus => 45,
            Key::Minus => 46,
            Key::Zero => 48,
            Key::Dot => 49,
            Key::Ee => 50,
            Key::Ans => 51,
            Key::Exe => 52,
        }
    }
}

/// A scanned keyboard state: one bit per key, set while the key is held.
#[derive(Clone, Copy)]
pub struct KeyboardState(u64);

impl KeyboardState {
    /// The raw scanned word.
    pub closed spec fn raw(self) -> u64 {
        self.0
    }

    /// A state with no key held.
    pub fn new() -> (r: Self)
        ensures
            r.raw() == 0,
    {
        KeyboardState(0)
    }

    /// Wraps a raw scanned word, as the platform's keyboard scan returns
    /// it.
    pub fn from_raw(state: u64) -> (r: Self)
        ensures
            r.raw() == state,
    {
        KeyboardState(state)
    }

    /// Whether the key's bit is set in this state.
    pub fn key_down(&self, key: Key) -> (r: bool)
        ensures
            r == ((self.raw() >> key_code(key)) & 1 != 0),
    {
        (self.0 >> key.code()) & 1 != 0
    }

    /// The keys held now that were not held in the earlier state.
    pub fn get_just_pressed(&self, earlier: KeyboardState) -> (r: Self)
        ensures
            r.raw() == self.raw() & !earlier.raw(),
    {
        KeyboardState(self.0 & (!earlier.0))
    }

    /// The keys held in the earlier state that are no longer held.
    pub fn get_just_realeased(&self, earlier: KeyboardState) -> (r: Self)
        ensures
            r.raw() == !self.raw() & earlier.raw(),
    {
        KeyboardState((!self.0) & earlier.0)
    }
}

impl Default for KeyboardState {
    /// The default state holds no key.
    fn default() -> (r: Self)
        ensures
            r.raw() == 0,
    {
        Self::new()
    }
}

/// An input event: what a key press means once modifiers are applied.
#[derive(Clone, Copy, PartialEq, Eq, Structural)]
pub enum Event {
    Left,
    Up,
    Down,
    Right,
    Okay,
    Back,
    Shift,
    Alpha,
    Xnt,
    Var,
    Toolbox,
    Backspace,
    Exp,
    Ln,
    Log,
    Imaginary,
    Comma,
    Power,
    Sine,
    Cosine,
    Tangent,
    Pi,
    Sqrt,
    Square,
    Seven,
    Eight,
    Nine,
    LeftParenthesis,
    RightParenthesis,
    Four,
    Five,
    Six,
    Multiplication,
    Division,
    One,
    Two,
    Three,
    Plus,
    Minus,
    Zero,
    Dot,
    Ee,
    Ans,
    Exe,
    ShiftLeft,
    ShiftUp,
    ShiftDown,
    ShiftRight,
    AlphaLock,
    Cut,
    Copy,
    Paste,
    Clear,
    LeftBracket,
    RightBracket,
    LeftBrace,
    RightBrace,
    Underscore,
    Sto,
    Arcsine,
    Arccosine,
    Arctangent,
    Equal,
    Lower,
    Greater,
    Colon,
    Semicolon,
    DoubleQuotes,
    Percent,
    LowerA,
    LowerB,
    LowerC,
    LowerD,
    LowerE,
    LowerF,
    LowerG,
    LowerH,
    LowerI,
    LowerJ,
    LowerK,
    LowerL,
    LowerM,
    LowerN,
    LowerO,
    LowerP,
    LowerQ,
    LowerR,
    LowerS,
    LowerT,
    LowerU,
    LowerV,
    LowerW,
    LowerX,
    LowerY,
    LowerZ,
    Space,
    Question,
    Exclamation,
    UpperA,
    UpperB,
    UpperC,
    UpperD,
    UpperE,
    UpperF,
    UpperG,
    UpperH,
    UpperI,
    UpperJ,
    UpperK,
    UpperL,
    UpperM,
    UpperN,
    UpperO,
    UpperP,
    UpperQ,
    UpperR,
    UpperS,
    UpperT,
    UpperU,
    UpperV,
    UpperW,
    UpperX,
    UpperY,
    UpperZ,
}

/// The digit an event stands for, where it is one of the ten digit
/// events.
pub open spec fn event_digit(e: Event) -> Option<u8> {
    match e {
        Event::Zero => Some(0u8),
        Event::One => Some(1u8),
        Event::Two => Some(2u8),
        Event::Three => Some(3u8),
        Event::Four => Some(4u8),
        Event::Five => Some(5u8),
        Event::Six => Some(6u8),
        Event::Seven => Some(7u8),
        Event::Eight => Some(8u8),
        Event::Nine => Some(9u8),
        _ => None,
    }
}

impl Event {
    /// Whether the event is one of the ten digit events.
    pub fn is_digit(&self) -> (r: bool)
        ensures
            r == (event_digit(*self) is Some),
    {
        matches!(
            self,
            Event::Zero
                | Event::One
                | Event::Two
                | Event::Three
                | Event::Four
                | Event::Five
                | Event::Six
                | Event::Seven
                | Event::Eight
                | Event::Nine
        )
    }

    /// The digit the event stands for: exactly the digit events yield
    /// one.
    pub fn to_digit(&self) -> (r: Option<u8>)
        ensures
            r == event_digit(*self),
            r is Some <==> event_digit(*self) is Some,
    {
        match self {
            Event::Zero => Some(0),
            Event::One => Some(1),
            Event::Two => Some(2),
            Event::Three => Some(3),
            Event::Four => Some(4),
            Event::Five => Some(5),
            Event::Six => Some(6),
            Event::Seven => Some(7),
            Event::Eight => Some(8),
            Event::Nine => Some(9),
            _ => None,
        }
    }
}

} // verus!
