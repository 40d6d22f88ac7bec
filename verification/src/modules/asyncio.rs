//! Functions of the `asyncio` module.

use vstd::prelude::*;

verus! {

/// Functions exposed by the `asyncio` module.
#[derive(Debug, Clone, Copy, PartialEq, Eq, Structural, Hash)]
pub enum AsyncioFunctions {
    /// `asyncio.gather()`
    Gather,
    /// `asyncio.run()`
    Run,
}

impl AsyncioFunctions {
    /// The function's name.
    pub open spec fn name(self) -> Seq<char> {
        match self {
            AsyncioFunctions::Gather => "gather"@,
            AsyncioFunctions::Run => "run"@,
        }
    }

    /// Returns the function's name.
    pub fn as_str(self) -> (r: &'static str)
        ensures
            r@ == self.name(),
    {
        match self {
            AsyncioFunctions::Gather => "gather",
            AsyncioFunctions::Run => "run",
        }
    }
}

} // verus!
