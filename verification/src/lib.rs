//! Interaction runtime of a terminal document viewer: a layered component
//! stack with bubbling event dispatch ("compositor"), a FIFO job queue that
//! lets background tasks mutate that stack safely, a trailing-edge debounce
//! primitive, and a modal key-sequence resolver.
use vstd::prelude::*;

pub mod commands;
pub mod compositor;
pub mod debounce;
pub mod domain;
pub mod editor_view;
pub mod search_box;
pub mod gutter;
pub mod model;
pub mod node;
pub mod status;
pub mod editor;
pub mod jobs;
pub mod keymap;
pub mod keys;
pub mod text;
pub mod uiconfig;
pub mod width;

verus! {

/// Sum of two counters.
pub fn add(left: u64, right: u64) -> (r: u64)
    requires
        left + right <= u64::MAX,
    ensures
        r == left + right,
{
    left + right
}

} // verus!
