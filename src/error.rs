use vstd::prelude::*;

verus! {

/// Why a pool could not be created or resized.
#[derive(Debug, Clone, Copy, PartialEq, Eq, Structural)]
pub enum PoolError {
    /// A worker count was zero, or the initial count exceeded the maximum.
    InvalidConfiguration,
}

} // verus!
