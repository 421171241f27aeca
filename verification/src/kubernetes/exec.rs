//! Exec sessions into pods.
use vstd::prelude::*;

verus! {

/// The size of an exec session's terminal.
#[derive(Debug, Clone, Copy)]
pub struct TerminalSize {
    pub cols: u16,
    pub rows: u16,
}

} // verus!
