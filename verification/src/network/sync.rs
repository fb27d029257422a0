//! Best-depth synchronisation: when to announce the local depth, and what
//! to do with a message of a peer.
//!
//! The engine keeps its own notion of the best depth. It announces that depth
//! on a tick when it has not announced it yet, and it hands a received block
//! to the importer only when the block is deeper than what it has.

use vstd::prelude::*;
use crate::network::behaviour::{PeerBehaviour, PeerId};
use crate::network::message::{encode_spec, Message, MessageView};
use crate::traits::BlockImporter;

verus! {

/// What became of one received message.
#[derive(Debug, PartialEq, Eq)]
pub enum Handled<F> {
    /// A depth announcement: nothing is imported on it.
    Announcement,
    /// A block that is not deeper than the local best: the importer was not asked.
    NotDeeper,
    /// A deeper block that the importer committed.
    Imported,
    /// A deeper block that the importer refused, with its reason.
    Rejected(F),
}

/// The part of the engine that decisions depend on.
pub ghost struct SyncView {
    /// The local notion of the best depth.
    pub best_depth: u64,
    /// The depth of the last announcement, if there was one.
    pub announced: Option<u64>,
}

/// Whether a tick in state `v` announces the depth.
pub open spec fn tick_announces(v: SyncView) -> bool {
    v.announced != Some(v.best_depth)
}

/// The state after a tick in state `v`.
pub open spec fn after_tick(v: SyncView) -> SyncView {
    SyncView { best_depth: v.best_depth, announced: Some(v.best_depth) }
}

/// Whether `message` carries a block that is deeper than `best_depth`.
pub open spec fn carries_deeper_block(best_depth: u64, message: MessageView) -> bool {
    match message {
        MessageView::Depth { .. } => false,
        MessageView::Block { depth, .. } => depth > best_depth,
    }
}

/// Whether `out` is a possible answer to `message` in state `v`.
pub open spec fn fits<F>(v: SyncView, message: MessageView, out: Handled<F>) -> bool {
    match message {
        MessageView::Depth { .. } => out is Announcement,
        MessageView::Block { depth, .. } => if depth > v.best_depth {
            out is Imported || out is Rejected
        } else {
            out is NotDeeper
        },
    }
}

/// The state after `message` was handled in state `v`, where `imported`
/// says whether the importer committed a block.
pub open spec fn after_message(v: SyncView, message: MessageView, imported: bool) -> SyncView {
    match message {
        MessageView::Depth { .. } => v,
        MessageView::Block { depth, .. } => if depth > v.best_depth && imported {
            SyncView { best_depth: depth, announced: v.announced }
        } else {
            v
        },
    }
}

/// A second tick at an unchanged depth announces nothing and changes
/// nothing: of any number of ticks in a row, at most the first announces.
pub proof fn lemma_repeated_tick_is_silent(v: SyncView)
    ensures
        !tick_announces(after_tick(v)),
        after_tick(after_tick(v)) == after_tick(v),
        !tick_announces(v) ==> after_tick(v) == v,
{
}

/// Neither a tick nor a message lowers the best depth. A message raises it
/// only where it carries a deeper block and the importer committed it, and
/// then to that block's depth.
pub proof fn lemma_best_depth_never_falls(v: SyncView, message: MessageView, imported: bool)
    ensures
        after_tick(v).best_depth == v.best_depth,
        after_message(v, message, imported).best_depth >= v.best_depth,
        after_message(v, message, imported).announced == v.announced,
        !(carries_deeper_block(v.best_depth, message) && imported) ==> after_message(
            v,
            message,
            imported,
        ) == v,
{
}

pub struct SyncEngine<I: BlockImporter> {
    importer: I,
    best_depth: u64,
    announced: Option<u64>,
}

impl<I: BlockImporter> View for SyncEngine<I> {
    type V = SyncView;

    closed spec fn view(&self) -> SyncView {
        SyncView { best_depth: self.best_depth, announced: self.announced }
    }
}

impl<I: BlockImporter> SyncEngine<I> {
    /// The importer that blocks are handed to.
    pub closed spec fn held_importer(&self) -> I {
        self.importer
    }

    /// An engine at `best_depth` that has announced nothing yet.
    pub fn new(importer: I, best_depth: u64) -> (engine: Self)
        ensures
            engine@ == (SyncView { best_depth, announced: None }),
            engine.held_importer() == importer,
    {
        SyncEngine { importer, best_depth, announced: None }
    }

    /// The local notion of the best depth.
    pub fn best_depth(&self) -> (depth: u64)
        ensures
            depth == self@.best_depth,
    {
        self.best_depth
    }

    /// The depth of the last announcement, if there was one.
    pub fn announced(&self) -> (depth: Option<u64>)
        ensures
            depth == self@.announced,
    {
        self.announced
    }

    /// Read access to the importer.
    pub fn importer(&self) -> (importer: &I)
        ensures
            *importer == self.held_importer(),
    {
        &self.importer
    }

    /// One period has passed. The best depth is broadcast if it is not the
    /// depth of the last announcement; the answer says whether it was.
    pub fn on_tick(&mut self, network: &mut PeerBehaviour) -> (announces: bool)
        ensures
            announces == tick_announces(old(self)@),
            final(self)@ == after_tick(old(self)@),
            final(self).held_importer() == old(self).held_importer(),
            final(network).partial_view() == old(network).partial_view(),
            final(network).events() == old(network).events(),
            final(network).outbound() == if announces {
                old(network).outbound().push(
                    encode_spec(MessageView::Depth { depth: old(self)@.best_depth }),
                )
            } else {
                old(network).outbound()
            },
    {
        let due = match self.announced {
            Some(depth) => depth != self.best_depth,
            None => true,
        };
        if due {
            let message = Message::Depth { depth: self.best_depth };
            network.broadcast(&message);
            self.announced = Some(self.best_depth);
        }
        due
    }

    /// Takes the importer's answer for a block at `depth`: a committed block
    /// that is deeper than the best depth becomes the best depth, a refusal
    /// changes nothing.
    pub fn conclude(&mut self, depth: u64, imported: Result<(), I::Failure>) -> (out: Handled<
        I::Failure,
    >)
        ensures
            final(self).held_importer() == old(self).held_importer(),
            final(self)@.announced == old(self)@.announced,
            match imported {
                Ok(_) => out == Handled::<I::Failure>::Imported && final(self)@.best_depth == if depth
                    > old(self)@.best_depth {
                    depth
                } else {
                    old(self)@.best_depth
                },
                Err(reason) => out == Handled::Rejected(reason) && final(self)@ == old(self)@,
            },
    {
        match imported {
            Ok(_) => {
                if depth > self.best_depth {
                    self.best_depth = depth;
                }
                Handled::Imported
            },
            Err(reason) => Handled::Rejected(reason),
        }
    }

    /// Handles one message of a peer.
    ///
    /// Only a block that is deeper than the best depth reaches the importer.
    /// On any other message nothing changes, the importer included. A block
    /// that the importer commits raises the best depth to its own; one that
    /// it refuses leaves the best depth as it was, and the reason is handed
    /// back. Either way the answer is the importer's answer to that block.
    pub fn on_message(&mut self, _peer: &PeerId, message: &Message) -> (out: Handled<I::Failure>)
        ensures
            fits(old(self)@, message@, out),
            final(self)@ == after_message(old(self)@, message@, out is Imported),
            !carries_deeper_block(old(self)@.best_depth, message@) ==> *final(self) == *old(self),
            match out {
                Handled::Imported => message@ matches MessageView::Block { block, .. } && old(
                    self).held_importer().may_import(block, Ok(()), &final(self).held_importer()),
                Handled::Rejected(reason) => message@ matches MessageView::Block { block, .. }
                    && old(self).held_importer().may_import(
                    block,
                    Err(reason),
                    &final(self).held_importer(),
                ),
                _ => true,
            },
    {
        match message {
            Message::Depth { .. } => Handled::Announcement,
            Message::Block { depth, block } => {
                if *depth > self.best_depth {
                    let imported = self.importer.import_block(block);
                    proof {
                        if let Ok(unit) = imported {
                            assert(unit == ());
                        }
                    }
                    self.conclude(*depth, imported)
                } else {
                    Handled::NotDeeper
                }
            },
        }
    }
}

} // verus!
