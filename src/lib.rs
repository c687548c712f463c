//! Dims every window of a tiling window manager but the focused one.
//!
//! `tree` walks a snapshot of the window tree and yields the opacity
//! commands for the windows that are not focused, together with the focus it
//! found; `tracker` turns each change of focus into the two commands that move
//! the dimming along; `command` writes a command as the window manager reads
//! it; `walk_laws` proves what holds of every walk.
use vstd::prelude::*;

pub mod command;
pub mod tracker;
pub mod tree;
pub mod walk_laws;

verus! {

} // verus!
