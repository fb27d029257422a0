//! A one-shot, transactional pipeline that turns extrinsics into one block.
//!
//! A builder is opened against a parent hash, takes extrinsics in the order
//! they are submitted and is consumed by `finalize`. A refused extrinsic leaves
//! the pending block and state exactly as they were.

use vstd::prelude::*;
use crate::chain::{backend_outcome, Error, ImportOperation};
use crate::traits::{BlockExecutor, LedgerBackend};

verus! {

/// A block under construction on top of a parent, with the uncommitted state
/// that follows it. `B` is the ledger the parent comes from, `E` the executor
/// that every stage runs on.
pub struct BlockBuilder<
    'a,
    B: LedgerBackend,
    E: BlockExecutor<Block = B::Block, State = B::State>,
> {
    executor: &'a E,
    pending_block: B::Block,
    pending_state: B::State,
}

impl<'a, B, E> BlockBuilder<'a, B, E> where
    B: LedgerBackend,
    E: BlockExecutor<Block = B::Block, State = B::State>,
 {
    /// The executor that every stage runs on.
    pub closed spec fn executor(&self) -> &E {
        self.executor
    }

    /// The block under construction.
    pub closed spec fn pending_block(&self) -> B::Block {
        self.pending_block
    }

    /// The uncommitted state that follows the block under construction.
    pub closed spec fn pending_state(&self) -> B::State {
        self.pending_state
    }

    /// The pending block with the pending state.
    pub open spec fn pending(&self) -> (B::Block, B::State) {
        (self.pending_block(), self.pending_state())
    }

    /// What `new` returns once the executor has answered the initialisation.
    pub open spec fn opened_spec(
        executor: &'a E,
        initialized: Result<(B::Block, B::State), E::Failure>,
        built: Result<Self, Error<B::Failure, E::Failure>>,
    ) -> bool {
        match initialized {
            Ok(pair) => built matches Ok(builder) && builder.executor() == executor
                && builder.pending() == pair,
            Err(failure) => built matches Err(error) && error == Error::<
                B::Failure,
                E::Failure,
            >::Executor(failure),
        }
    }

    /// Forms the builder from the outcome of block initialisation.
    pub fn opened(
        executor: &'a E,
        initialized: Result<(B::Block, B::State), E::Failure>,
    ) -> (built: Result<Self, Error<B::Failure, E::Failure>>)
        ensures
            Self::opened_spec(executor, initialized, built),
    {
        match initialized {
            Ok((pending_block, pending_state)) => Ok(
                BlockBuilder { executor, pending_block, pending_state },
            ),
            Err(failure) => Err(Error::Executor(failure)),
        }
    }

    /// Whether the backend may hold `block` and `state` under `hash`.
    pub open spec fn parent_found(
        backend: &B,
        hash: B::Hash,
        block: B::Block,
        state: B::State,
    ) -> bool {
        backend.may_find_block(hash, Ok(block)) && backend.may_find_state(hash, Ok(state))
    }

    /// What `new` may return for `hash`: a builder on what the executor made
    /// of a parent that the backend found, the backend's failure for the
    /// block or, the block found, for the state, or the executor's failure
    /// to initialise on a parent that the backend found.
    pub open spec fn new_spec(
        backend: &B,
        executor: &'a E,
        hash: B::Hash,
        built: Result<Self, Error<B::Failure, E::Failure>>,
    ) -> bool {
        match built {
            Ok(builder) => builder.executor() == executor && exists|
                block: B::Block,
                state: B::State,
            |
                #[trigger] Self::parent_found(backend, hash, block, state)
                    && executor.may_initialize(block, state, Ok(builder.pending())),
            Err(Error::Backend(failure)) => backend.may_find_block(hash, Err(failure)) || exists|
                block: B::Block,
            |
                #[trigger] backend.may_find_block(hash, Ok(block)) && backend.may_find_state(
                    hash,
                    Err(failure),
                ),
            Err(Error::Executor(failure)) => exists|block: B::Block, state: B::State|
                #[trigger] Self::parent_found(backend, hash, block, state)
                    && executor.may_initialize(block, state, Err(failure)),
        }
    }

    /// Opens a builder on the block and state stored under `parent_hash`.
    ///
    /// A failed lookup is reported as `Error::Backend`; the state is not
    /// asked for when the block is missing. A refused initialisation is
    /// reported as `Error::Executor`. A builder that comes back runs on
    /// `executor` and holds what the executor made of the parent.
    pub fn new(backend: &B, executor: &'a E, parent_hash: &B::Hash) -> (built: Result<
        Self,
        Error<B::Failure, E::Failure>,
    >)
        ensures
            Self::new_spec(backend, executor, *parent_hash, built),
    {
        let parent_block = match backend_outcome(backend.block_at(parent_hash)) {
            Ok(block) => block,
            Err(error) => { return Err(error); },
        };
        let parent_state = match backend_outcome(backend.state_at(parent_hash)) {
            Ok(state) => state,
            Err(error) => { return Err(error); },
        };
        let ghost block = parent_block;
        let ghost state = parent_state;
        let initialized = executor.initialize_block(parent_block, parent_state);
        assert(Self::parent_found(backend, *parent_hash, block, state));
        Self::opened(executor, initialized)
    }

    /// Read access to the block under construction.
    pub fn block(&self) -> (block: &B::Block)
        ensures
            *block == self.pending_block(),
    {
        &self.pending_block
    }

    /// Read access to the uncommitted state.
    pub fn state(&self) -> (state: &B::State)
        ensures
            *state == self.pending_state(),
    {
        &self.pending_state
    }

    /// Takes the executor's answer to one extrinsic: the pair it returned
    /// replaces the pending pair, a refusal changes nothing.
    pub fn adopt(&mut self, applied: Result<(B::Block, B::State), E::Failure>) -> (out: Result<
        (),
        Error<B::Failure, E::Failure>,
    >)
        ensures
            final(self).executor() == old(self).executor(),
            match applied {
                Ok(pair) => out == Ok::<(), Error<B::Failure, E::Failure>>(()) && final(
                    self).pending() == pair,
                Err(failure) => out == Err::<(), Error<B::Failure, E::Failure>>(
                    Error::Executor(failure),
                ) && final(self).pending() == old(self).pending(),
            },
    {
        match applied {
            Ok((block, state)) => {
                self.pending_block = block;
                self.pending_state = state;
                Ok(())
            },
            Err(failure) => Err(Error::Executor(failure)),
        }
    }

    /// Applies `extrinsic` on top of what was applied before.
    ///
    /// On success the pending pair is the one that the executor answered
    /// with. When the executor refuses the extrinsic, the error is
    /// `Error::Executor` with its reason, and the pending block and state are
    /// those from before the call.
    pub fn apply_extrinsic(&mut self, extrinsic: E::Extrinsic) -> (out: Result<
        (),
        Error<B::Failure, E::Failure>,
    >)
        ensures
            final(self).executor() == old(self).executor(),
            match out {
                Ok(_) => old(self).executor().may_apply(
                    old(self).pending_block(),
                    extrinsic,
                    old(self).pending_state(),
                    Ok(final(self).pending()),
                ),
                Err(Error::Executor(failure)) => old(self).executor().may_apply(
                    old(self).pending_block(),
                    extrinsic,
                    old(self).pending_state(),
                    Err(failure),
                ) && final(self).pending() == old(self).pending(),
                Err(Error::Backend(_)) => false,
            },
    {
        let applied = self.executor.apply_extrinsic(
            &self.pending_block,
            extrinsic,
            &self.pending_state,
        );
        self.adopt(applied)
    }

    /// What `finalize` returns once the executor has answered the finalisation.
    pub open spec fn sealed_spec(
        finalized: Result<(B::Block, B::State), E::Failure>,
    ) -> Result<ImportOperation<B::Block, B::State>, Error<B::Failure, E::Failure>> {
        match finalized {
            Ok((block, state)) => Ok(ImportOperation { block, state }),
            Err(failure) => Err(Error::Executor(failure)),
        }
    }

    /// Forms the import operation from the outcome of block finalisation.
    pub fn sealed(finalized: Result<(B::Block, B::State), E::Failure>) -> (out: Result<
        ImportOperation<B::Block, B::State>,
        Error<B::Failure, E::Failure>,
    >)
        ensures
            out == Self::sealed_spec(finalized),
    {
        match finalized {
            Ok((block, state)) => Ok(ImportOperation { block, state }),
            Err(failure) => Err(Error::Executor(failure)),
        }
    }

    /// Ends the build. The builder is consumed whatever the outcome, so
    /// nothing can be applied afterwards.
    ///
    /// The import operation holds the pair that the executor answered the
    /// finalisation of the pending pair with; a refusal is reported as
    /// `Error::Executor` with its reason.
    pub fn finalize(self) -> (out: Result<
        ImportOperation<B::Block, B::State>,
        Error<B::Failure, E::Failure>,
    >)
        ensures
            match out {
                Ok(operation) => self.executor().may_finalize(
                    self.pending_block(),
                    self.pending_state(),
                    Ok((operation.block, operation.state)),
                ),
                Err(Error::Executor(failure)) => self.executor().may_finalize(
                    self.pending_block(),
                    self.pending_state(),
                    Err(failure),
                ),
                Err(Error::Backend(_)) => false,
            },
    {
        let finalized = self.executor.finalize_block(self.pending_block, self.pending_state);
        Self::sealed(finalized)
    }
}

} // verus!
