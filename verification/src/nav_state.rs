//! Which part of the reader is on screen.

use vstd::prelude::*;

verus! {

/// The part of the reader that is on screen.
#[derive(Clone, Copy, Debug, PartialEq, Eq, Structural)]
pub enum NavState {
    Upload,
    Read,
    Toc,
    Settings,
}

} // verus!
