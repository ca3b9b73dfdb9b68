//! Plain identifiers for the state of the mouse.
//!
//! Buttons and wheels are exchanged with windowing backends as raw
//! integer codes. The mapping is written as explicit, exhaustive
//! matches in both directions, with contracts pinning each code down;
//! nothing relies on the memory layout of the enums.

use vstd::prelude::*;

verus! {

/// Mouse buttons.
#[derive(Clone, Copy, PartialEq, Eq, Structural, PartialOrd, Ord, Debug)]
pub enum Button {
    /// The left mouse button.
    Left,
    /// The right mouse button.
    Right,
    /// The middle (wheel) mouse button.
    Middle,
    /// The first extra mouse button.
    XButton1,
    /// The second extra mouse button.
    XButton2,
    /// The total number of mouse buttons.
    Count,
}

/// Mouse wheels.
#[derive(Clone, Copy, PartialEq, Eq, Structural, PartialOrd, Ord, Debug)]
pub enum Wheel {
    /// The vertical mouse wheel.
    Vertical,
    /// The horizontal mouse wheel.
    Horizontal,
}

/// The raw code of each button.
pub open spec fn button_code(b: Button) -> int {
    match b {
        Button::Left => 0,
        Button::Right => 1,
        Button::Middle => 2,
        Button::XButton1 => 3,
        Button::XButton2 => 4,
        Button::Count => 5,
    }
}

/// The raw code of each wheel.
pub open spec fn wheel_code(w: Wheel) -> int {
    match w {
        Wheel::Vertical => 0,
        Wheel::Horizontal => 1,
    }
}

impl Button {
    /// The raw integer code of this button.
    pub fn raw(&self) -> (code: u32)
        ensures
            code as int == button_code(*self),
    {
        match *self {
            Button::Left => 0,
            Button::Right => 1,
            Button::Middle => 2,
            Button::XButton1 => 3,
            Button::XButton2 => 4,
            Button::Count => 5,
        }
    }

    /// The button of a raw integer code. Codes above 5 name no button.
    pub fn from_raw(code: u32) -> (b: Button)
        requires
            code < 6,
        ensures
            button_code(b) == code as int,
    {
        match code {
            0 => Button::Left,
            1 => Button::Right,
            2 => Button::Middle,
            3 => Button::XButton1,
            4 => Button::XButton2,
            _ => Button::Count,
        }
    }
}

impl Wheel {
    /// The raw integer code of this wheel.
    pub fn raw(&self) -> (code: u32)
        ensures
            code as int == wheel_code(*self),
    {
        match *self {
            Wheel::Vertical => 0,
            Wheel::Horizontal => 1,
        }
    }

    /// The wheel of a raw integer code. Codes above 1 name no wheel.
    pub fn from_raw(code: u32) -> (w: Wheel)
        requires
            code < 2,
        ensures
            wheel_code(w) == code as int,
    {
        match code {
            0 => Wheel::Vertical,
            _ => Wheel::Horizontal,
        }
    }
}

} // verus!
