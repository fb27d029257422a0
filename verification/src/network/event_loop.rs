//! One scheduling step of the cooperative loop.
//!
//! A step first handles every period that has run out, then every event that
//! waits, in the order of the queue, and then returns. Waiting for the timer
//! or the transport is the caller's part.

use vstd::prelude::*;
use crate::network::behaviour::{PeerBehaviour, PeerId};
use crate::network::message::{encode_spec, MessageView};
use crate::network::sync::{
    after_message, after_tick, fits, lemma_repeated_tick_is_silent, tick_announces, Handled,
    SyncEngine, SyncView,
};
use crate::traits::BlockImporter;

verus! {

/// What one step did.
#[derive(Debug, PartialEq, Eq)]
pub struct StepReport<F> {
    /// Whether the best depth was broadcast.
    pub announced: bool,
    /// What became of each event, in the order of the queue.
    pub handled: Vec<Handled<F>>,
}

/// The state after `ticks` periods in state `v`.
pub open spec fn ticked(v: SyncView, ticks: nat) -> SyncView {
    if ticks > 0 {
        after_tick(v)
    } else {
        v
    }
}

/// The state after `events` were handled in order from state `start` with
/// the answers `handled`.
pub open spec fn replay<F>(
    start: SyncView,
    events: Seq<(PeerId, MessageView)>,
    handled: Seq<Handled<F>>,
) -> SyncView
    decreases events.len(),
{
    if events.len() == 0 || handled.len() != events.len() {
        start
    } else {
        after_message(
            replay(start, events.drop_last(), handled.drop_last()),
            events.last().1,
            handled.last() is Imported,
        )
    }
}

/// Whether `handled` answers `events` one for one, each answer a possible
/// one in the state that the events before it left.
pub open spec fn faithful<F>(
    start: SyncView,
    events: Seq<(PeerId, MessageView)>,
    handled: Seq<Handled<F>>,
) -> bool
    decreases events.len(),
{
    handled.len() == events.len() && (events.len() == 0 || (faithful(
        start,
        events.drop_last(),
        handled.drop_last(),
    ) && fits(
        replay(start, events.drop_last(), handled.drop_last()),
        events.last().1,
        handled.last(),
    )))
}

/// Handling events never lowers the best depth and never touches the
/// record of the last announcement, whatever the importer answers.
pub proof fn lemma_replay_keeps_depth_and_announcement<F>(
    start: SyncView,
    events: Seq<(PeerId, MessageView)>,
    handled: Seq<Handled<F>>,
)
    ensures
        replay(start, events, handled).best_depth >= start.best_depth,
        replay(start, events, handled).announced == start.announced,
    decreases events.len(),
{
    if events.len() != 0 && handled.len() == events.len() {
        lemma_replay_keeps_depth_and_announcement(start, events.drop_last(), handled.drop_last());
    }
}

/// Runs one step: `elapsed_ticks` ticks, then every event that waits.
///
/// Of the ticks at most the first broadcasts. Every event is answered, a
/// refused block included, and the queue is empty afterwards.
pub fn run_step<I: BlockImporter>(
    engine: &mut SyncEngine<I>,
    network: &mut PeerBehaviour,
    elapsed_ticks: usize,
) -> (report: StepReport<I::Failure>)
    ensures
        final(network).partial_view() == old(network).partial_view(),
        final(network).events().len() == 0,
        report.announced == (elapsed_ticks > 0 && tick_announces(old(engine)@)),
        final(network).outbound() == if report.announced {
            old(network).outbound().push(
                encode_spec(MessageView::Depth { depth: old(engine)@.best_depth }),
            )
        } else {
            old(network).outbound()
        },
        faithful(
            ticked(old(engine)@, elapsed_ticks as nat),
            old(network).events(),
            report.handled@,
        ),
        final(engine)@ == replay(
            ticked(old(engine)@, elapsed_ticks as nat),
            old(network).events(),
            report.handled@,
        ),
{
    let mut announced = false;
    let mut tick: usize = 0;
    while tick < elapsed_ticks
        invariant
            tick <= elapsed_ticks,
            network.partial_view() == old(network).partial_view(),
            network.events() == old(network).events(),
            engine@ == ticked(old(engine)@, tick as nat),
            announced == (tick > 0 && tick_announces(old(engine)@)),
            network.outbound() == if announced {
                old(network).outbound().push(
                    encode_spec(MessageView::Depth { depth: old(engine)@.best_depth }),
                )
            } else {
                old(network).outbound()
            },
        decreases elapsed_ticks - tick,
    {
        proof {
            lemma_repeated_tick_is_silent(old(engine)@);
        }
        let announces = engine.on_tick(network);
        if announces {
            announced = true;
        }
        tick += 1;
    }
    let ghost start = engine@;
    let ghost waiting = network.events();
    let mut handled: Vec<Handled<I::Failure>> = Vec::new();
    loop
        invariant
            network.partial_view() == old(network).partial_view(),
            network.outbound() == if announced {
                old(network).outbound().push(
                    encode_spec(MessageView::Depth { depth: old(engine)@.best_depth }),
                )
            } else {
                old(network).outbound()
            },
            handled@.len() <= waiting.len(),
            network.events() == waiting.skip(handled@.len() as int),
            faithful(start, waiting.take(handled@.len() as int), handled@),
            engine@ == replay(start, waiting.take(handled@.len() as int), handled@),
        ensures
            handled@.len() == waiting.len(),
            network.events().len() == 0,
        decreases waiting.len() - handled@.len(),
    {
        let ghost done = handled@.len() as int;
        let ghost answers = handled@;
        match network.poll() {
            None => {
                break ;
            },
            Some((peer, message)) => {
                let out = engine.on_message(&peer, &message);
                handled.push(out);
                proof {
                    assert(waiting.skip(done)[0] == waiting[done]);
                    assert(network.events() =~= waiting.skip(done + 1));
                    assert(waiting.take(done + 1).drop_last() =~= waiting.take(done));
                    assert(handled@.drop_last() =~= answers);
                    assert(waiting.take(done + 1).last() == waiting[done]);
                }
            },
        }
    }
    proof {
        assert(waiting.take(handled@.len() as int) =~= waiting);
    }
    StepReport { announced, handled }
}

} // verus!
