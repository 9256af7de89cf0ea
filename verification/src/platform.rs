//! The buttons of the device and the events that they produce.

use vstd::prelude::*;

verus! {

/// A button of the device as the user interface sees it.
#[derive(Debug, Clone, Copy, PartialEq, Eq, Structural, Hash)]
pub enum Key {
    A,
    B,
    C,
    X,
    Y,
    Z,
    Up,
    Down,
    Left,
    Right,
    Start,
    Select,
    L,
    R,
    L2,
    R2,
    Menu,
    Power,
    VolDown,
    VolUp,
    Unknown,
}

/// A change of a button's state.
#[derive(Debug, Clone, Copy, PartialEq, Eq, Structural)]
pub enum KeyEvent {
    Pressed(Key),
    Released(Key),
    Autorepeat(Key),
}

} // verus!
