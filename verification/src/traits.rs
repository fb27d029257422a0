//! Capabilities that the embedding node supplies.
//!
//! Each method comes with a relation between what it is given and what it may
//! answer. The relation holds of everything unless an implementation says
//! more of itself, so an implementation promises only what it states. The
//! library's contracts say which call an answer came from by these relations.

use vstd::prelude::*;

verus! {

/// Read access to the ledger: the block and the state stored under a hash.
pub trait LedgerBackend {
    type Hash;
    type Block;
    type State;
    type Failure;

    /// Whether the backend may give `answer` when asked for the block under `hash`.
    open spec fn may_find_block(
        &self,
        hash: Self::Hash,
        answer: Result<Self::Block, Self::Failure>,
    ) -> bool {
        true
    }

    /// Whether the backend may give `answer` when asked for the state under `hash`.
    open spec fn may_find_state(
        &self,
        hash: Self::Hash,
        answer: Result<Self::State, Self::Failure>,
    ) -> bool {
        true
    }

    /// The block stored under `hash`.
    fn block_at(&self, hash: &Self::Hash) -> (answer: Result<Self::Block, Self::Failure>)
        ensures
            self.may_find_block(*hash, answer),
    ;

    /// A transactional view of the state after the block stored under `hash`.
    fn state_at(&self, hash: &Self::Hash) -> (answer: Result<Self::State, Self::Failure>)
        ensures
            self.may_find_state(*hash, answer),
    ;
}

/// Executes the three stages of block construction.
///
/// `apply_extrinsic` reads the pending pair and hands back the next one, so a
/// caller that keeps the old pair on failure cannot observe a partial change.
pub trait BlockExecutor {
    type Block;
    type State;
    type Extrinsic;
    type Failure;

    /// Whether the executor may give `answer` when it initialises a block on
    /// the parent `block` and `state`.
    open spec fn may_initialize(
        &self,
        block: Self::Block,
        state: Self::State,
        answer: Result<(Self::Block, Self::State), Self::Failure>,
    ) -> bool {
        true
    }

    /// Whether the executor may give `answer` when it applies `extrinsic` to
    /// the pending `block` and `state`.
    open spec fn may_apply(
        &self,
        block: Self::Block,
        extrinsic: Self::Extrinsic,
        state: Self::State,
        answer: Result<(Self::Block, Self::State), Self::Failure>,
    ) -> bool {
        true
    }

    /// Whether the executor may give `answer` when it finalises the pending
    /// `block` and `state`.
    open spec fn may_finalize(
        &self,
        block: Self::Block,
        state: Self::State,
        answer: Result<(Self::Block, Self::State), Self::Failure>,
    ) -> bool {
        true
    }

    /// Header setup before any extrinsic.
    fn initialize_block(&self, block: Self::Block, state: Self::State) -> (answer: Result<
        (Self::Block, Self::State),
        Self::Failure,
    >)
        ensures
            self.may_initialize(block, state, answer),
    ;

    /// Validates `extrinsic` against the pending pair and returns the pair that follows it.
    fn apply_extrinsic(
        &self,
        block: &Self::Block,
        extrinsic: Self::Extrinsic,
        state: &Self::State,
    ) -> (answer: Result<(Self::Block, Self::State), Self::Failure>)
        ensures
            self.may_apply(*block, extrinsic, *state, answer),
    ;

    /// Trailer computation after the last extrinsic.
    fn finalize_block(&self, block: Self::Block, state: Self::State) -> (answer: Result<
        (Self::Block, Self::State),
        Self::Failure,
    >)
        ensures
            self.may_finalize(block, state, answer),
    ;
}

/// Validates a received block and commits it to the ledger, or rejects it.
pub trait BlockImporter {
    type Failure;

    /// Whether an importer in state `self` may give `answer` to `block` and
    /// be in state `after` then.
    open spec fn may_import(
        &self,
        block: Seq<u8>,
        answer: Result<(), Self::Failure>,
        after: &Self,
    ) -> bool {
        true
    }

    /// Tries to import the block whose encoding is `block`.
    fn import_block(&mut self, block: &Vec<u8>) -> (answer: Result<(), Self::Failure>)
        ensures
            old(self).may_import(block@, answer, final(self)),
    ;
}

} // verus!
