//! Operations that only the host can perform.

use vstd::prelude::*;

verus! {

/// An operation of the host's operating system.
#[derive(Debug, Clone, Copy, PartialEq, Eq, Structural, Hash)]
pub enum OsFunction {
    /// Look up one environment variable.
    Getenv,
    /// Return the whole environment.
    GetEnviron,
}

} // verus!
