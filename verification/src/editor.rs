//! Editor-level state: the input mode the keymap resolves against, and the
//! small editor record the application threads through its loop.
use vstd::prelude::*;

verus! {

/// The input mode the editor is in; each mode has its own keymap root.
#[derive(Debug, Copy, Clone, PartialEq, Eq, Structural, Hash)]
pub enum Mode {
    Normal,
    Select,
    Insert,
    Command,
}

/// The state of the editor proper.
pub struct Editor {
    pub mode: Mode,
}

impl Editor {
    /// A fresh editor starts in Normal mode.
    pub fn new() -> (r: Editor)
        ensures
            r.mode == Mode::Normal,
    {
        Editor { mode: Mode::Normal }
    }
}

} // verus!
