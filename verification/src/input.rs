//! Input snapshot and platform event support.
//!
//! The main loop reads at most one pending platform event per real frame and
//! one immutable snapshot of the input devices, shared across every logical
//! tick run in that frame. Both are plain values here; an adapter around the
//! host platform's event queue fills them in.

use vstd::prelude::*;

verus! {

/// A platform event, as far as the main loop is concerned: a quit request is
/// recognized specially, anything else is forwarded to the game untouched.
#[derive(Debug, Clone, Copy, PartialEq, Eq, Structural)]
pub enum Event {
    /// A request from the host platform to quit.
    Quit,
    /// Any other platform event, carried as the platform's event code.
    Other(u32),
}

/// Input snapshot: the state of the keyboard and pointer at a point in time.
pub struct Input {
    /// Scancodes of the keys currently held down.
    pub keys: Vec<u32>,
    /// Horizontal pointer position.
    pub mouse_x: i32,
    /// Vertical pointer position.
    pub mouse_y: i32,
    /// Whether the primary pointer button is held down.
    pub mouse_left: bool,
    /// Whether the secondary pointer button is held down.
    pub mouse_right: bool,
}

impl Input {
    /// Snapshot the given input device state.
    pub fn new(keys: Vec<u32>, mouse_x: i32, mouse_y: i32, mouse_left: bool, mouse_right: bool)
        -> (r: Input)
        ensures
            r.keys == keys,
            r.mouse_x == mouse_x,
            r.mouse_y == mouse_y,
            r.mouse_left == mouse_left,
            r.mouse_right == mouse_right,
    {
        Input { keys, mouse_x, mouse_y, mouse_left, mouse_right }
    }

    /// An empty snapshot: no key held, the pointer at the origin.
    pub fn empty() -> (r: Input)
        ensures
            r.keys@.len() == 0,
            r.mouse_x == 0,
            r.mouse_y == 0,
            !r.mouse_left,
            !r.mouse_right,
    {
        Input { keys: Vec::new(), mouse_x: 0, mouse_y: 0, mouse_left: false, mouse_right: false }
    }
}

} // verus!
