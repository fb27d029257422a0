//! Block construction: the error taxonomy, the import operation and the builder.

use vstd::prelude::*;

pub mod block_builder;

verus! {

/// Why a block could not be built, by origin.
#[derive(Debug, PartialEq, Eq)]
pub enum Error<BF, EF> {
    /// The parent block or the parent state could not be located.
    Backend(BF),
    /// Initialisation, an extrinsic or finalisation was refused.
    Executor(EF),
}

/// A finished block with the state that follows it, ready to be committed.
#[derive(Debug, PartialEq, Eq)]
pub struct ImportOperation<Block, State> {
    pub block: Block,
    pub state: State,
}

/// Classifies a backend lookup: a failure becomes `Error::Backend`.
pub fn backend_outcome<T, BF, EF>(looked_up: Result<T, BF>) -> (out: Result<T, Error<BF, EF>>)
    ensures
        out == match looked_up {
            Ok(value) => Ok::<T, Error<BF, EF>>(value),
            Err(failure) => Err(Error::Backend(failure)),
        },
{
    match looked_up {
        Ok(value) => Ok(value),
        Err(failure) => Err(Error::Backend(failure)),
    }
}

} // verus!
