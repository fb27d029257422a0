//! Gossip, DHT discovery and local-network discovery behind one polled
//! event source.
//!
//! The behaviour keeps the partial view (the peers that broadcasts reach), a
//! first-in first-out queue of decoded messages and the payloads waiting to
//! be published on the topic. The transport feeds it notices and publishes
//! what it hands out.

use vstd::prelude::*;
use crate::network::message::{decode_spec, encode_spec, DecodeError, Message, MessageView};

verus! {

/// Identity of a network participant, compared by value.
#[derive(Clone, Copy, Debug, PartialEq, Eq, Hash, Structural)]
pub struct PeerId {
    pub key: u64,
}

/// One expired local-discovery record: the peer it named, and whether local
/// discovery still holds another live record for that peer.
#[derive(Clone, Copy, Debug, PartialEq, Eq, Structural)]
pub struct LocalExpiry {
    pub peer: PeerId,
    pub still_held: bool,
}

/// What a sub-protocol reports.
#[derive(Clone, Debug, PartialEq, Eq)]
pub enum Notice {
    /// A raw payload arrived on the gossip topic.
    Gossip { source: PeerId, data: Vec<u8> },
    /// The DHT found a peer.
    DhtDiscovered { peer: PeerId },
    /// Local discovery found peers.
    LocalDiscovered { peers: Vec<PeerId> },
    /// Local-discovery records ran out.
    LocalExpired { records: Vec<LocalExpiry> },
}

/// The peers that occur in `peers`.
pub open spec fn listed(peers: Seq<PeerId>) -> Set<PeerId> {
    Set::new(|p: PeerId| peers.contains(p))
}

/// The peers that `records` evict: those named by a record that local
/// discovery no longer backs with another one.
pub open spec fn evicted(records: Seq<LocalExpiry>) -> Set<PeerId> {
    Set::new(|p: PeerId| records.contains(LocalExpiry { peer: p, still_held: false }))
}

/// The peers that `records` name, evicted or not.
pub open spec fn named(records: Seq<LocalExpiry>) -> Set<PeerId> {
    Set::new(|p: PeerId| exists|i: int| 0 <= i < records.len() && #[trigger] records[i].peer == p)
}

/// The partial view after a discovery of `peers`.
pub open spec fn after_discovery(view: Set<PeerId>, peers: Seq<PeerId>) -> Set<PeerId> {
    view.union(listed(peers))
}

/// The partial view after the expiry of `records`.
pub open spec fn after_expiry(view: Set<PeerId>, records: Seq<LocalExpiry>) -> Set<PeerId> {
    view.difference(evicted(records))
}

/// The byte sequences that `payloads` holds.
pub open spec fn payload_views(payloads: Seq<Vec<u8>>) -> Seq<Seq<u8>> {
    payloads.map_values(|d: Vec<u8>| d@)
}

/// The events that `queue` holds, oldest first.
pub open spec fn event_views(queue: Seq<(PeerId, Message)>) -> Seq<(PeerId, MessageView)> {
    queue.map_values(|e: (PeerId, Message)| (e.0, e.1@))
}

/// The partial view after `notice`.
pub open spec fn view_after(view: Set<PeerId>, notice: Notice) -> Set<PeerId> {
    match notice {
        Notice::Gossip { .. } => view,
        Notice::DhtDiscovered { peer } => view.insert(peer),
        Notice::LocalDiscovered { peers } => after_discovery(view, peers@),
        Notice::LocalExpired { records } => after_expiry(view, records@),
    }
}

/// Why `notice` is dropped, if it is: only a gossip payload that is no
/// message is.
pub open spec fn refusal(notice: Notice) -> Option<DecodeError> {
    match notice {
        Notice::Gossip { data, .. } => match decode_spec(data@) {
            Ok(_) => None,
            Err(reason) => Some(reason),
        },
        _ => None,
    }
}

/// The queue after `notice`: a gossip payload that decodes joins it at the
/// end, nothing else touches it.
pub open spec fn events_after(
    events: Seq<(PeerId, MessageView)>,
    notice: Notice,
) -> Seq<(PeerId, MessageView)> {
    match notice {
        Notice::Gossip { source, data } => match decode_spec(data@) {
            Ok(message) => events.push((source, message)),
            Err(_) => events,
        },
        _ => events,
    }
}

/// The partial view after `notices`, taken in order.
pub open spec fn view_after_all(view: Set<PeerId>, notices: Seq<Notice>) -> Set<PeerId>
    decreases notices.len(),
{
    if notices.len() == 0 {
        view
    } else {
        view_after(view_after_all(view, notices.drop_last()), notices.last())
    }
}

/// The queue after `notices`, taken in order.
pub open spec fn events_after_all(
    events: Seq<(PeerId, MessageView)>,
    notices: Seq<Notice>,
) -> Seq<(PeerId, MessageView)>
    decreases notices.len(),
{
    if notices.len() == 0 {
        events
    } else {
        events_after(events_after_all(events, notices.drop_last()), notices.last())
    }
}

/// The reasons for which notices of `notices` are dropped, in order.
pub open spec fn refusals(notices: Seq<Notice>) -> Seq<DecodeError>
    decreases notices.len(),
{
    if notices.len() == 0 {
        Seq::empty()
    } else {
        match refusal(notices.last()) {
            Some(reason) => refusals(notices.drop_last()).push(reason),
            None => refusals(notices.drop_last()),
        }
    }
}

/// An expiry notice evicts only peers that it names: a peer that the DHT
/// added and that no record of the notice names is in the partial view
/// afterwards.
pub proof fn lemma_expiry_spares_unnamed_peers(
    view: Set<PeerId>,
    peer: PeerId,
    records: Seq<LocalExpiry>,
)
    requires
        !named(records).contains(peer),
    ensures
        after_expiry(view.insert(peer), records).contains(peer),
        forall|other: PeerId|
            view.contains(other) && !named(records).contains(other) ==> #[trigger] after_expiry(
                view.insert(peer),
                records,
            ).contains(other),
{
    assert forall|p: PeerId| evicted(records).contains(p) implies named(records).contains(p) by {
        let gone = LocalExpiry { peer: p, still_held: false };
        let i = choose|i: int| 0 <= i < records.len() && records[i] == gone;
        assert(records[i].peer == p);
    }
}

/// Whether `notice` is an expiry notice with a record that names `peer`.
pub open spec fn names_in_expiry(notice: Notice, peer: PeerId) -> bool {
    match notice {
        Notice::LocalExpired { records } => named(records@).contains(peer),
        _ => false,
    }
}

/// A peer of the partial view stays in it through any run of notices in
/// which no expiry record names it: no discovery, no gossip and no expiry
/// of other peers takes it out.
pub proof fn lemma_member_stays_unless_named(
    view: Set<PeerId>,
    notices: Seq<Notice>,
    peer: PeerId,
)
    requires
        view.contains(peer),
        forall|i: int| 0 <= i < notices.len() ==> !names_in_expiry(#[trigger] notices[i], peer),
    ensures
        view_after_all(view, notices).contains(peer),
    decreases notices.len(),
{
    if notices.len() > 0 {
        let before = notices.drop_last();
        assert forall|i: int| 0 <= i < before.len() implies !names_in_expiry(
            #[trigger] before[i],
            peer,
        ) by {
            assert(before[i] == notices[i]);
        }
        lemma_member_stays_unless_named(view, before, peer);
        let reached = view_after_all(view, before);
        assert(!names_in_expiry(notices[notices.len() - 1], peer));
        match notices.last() {
            Notice::LocalExpired { records } => {
                lemma_expiry_spares_unnamed_peers(reached, peer, records@);
                assert(reached.insert(peer) =~= reached);
            },
            _ => {},
        }
    }
}

/// Discovery only extends the partial view, and discovering a peer again
/// changes nothing.
pub proof fn lemma_discovery_extends(view: Set<PeerId>, peers: Seq<PeerId>)
    ensures
        view.subset_of(after_discovery(view, peers)),
        after_discovery(after_discovery(view, peers), peers) == after_discovery(view, peers),
{
    assert(after_discovery(after_discovery(view, peers), peers) =~= after_discovery(view, peers));
}

proof fn lemma_listed_step(peers: Seq<PeerId>, i: int)
    requires
        0 <= i < peers.len(),
    ensures
        listed(peers.take(i + 1)) == listed(peers.take(i)).insert(peers[i]),
{
    let a = peers.take(i + 1);
    let b = peers.take(i);
    assert forall|p: PeerId| listed(a).contains(p) == listed(b).insert(peers[i]).contains(p) by {
        if a.contains(p) {
            let j = choose|j: int| 0 <= j < a.len() && a[j] == p;
            if j < i {
                assert(b[j] == p);
            }
        }
        if b.contains(p) {
            let j = choose|j: int| 0 <= j < b.len() && b[j] == p;
            assert(a[j] == p);
        }
        if p == peers[i] {
            assert(a[i] == p);
        }
    }
    assert(listed(a) =~= listed(b).insert(peers[i]));
}

proof fn lemma_evicted_step(records: Seq<LocalExpiry>, i: int)
    requires
        0 <= i < records.len(),
    ensures
        evicted(records.take(i + 1)) == if records[i].still_held {
            evicted(records.take(i))
        } else {
            evicted(records.take(i)).insert(records[i].peer)
        },
{
    let a = records.take(i + 1);
    let b = records.take(i);
    let goal = if records[i].still_held {
        evicted(b)
    } else {
        evicted(b).insert(records[i].peer)
    };
    assert forall|p: PeerId| evicted(a).contains(p) == goal.contains(p) by {
        let gone = LocalExpiry { peer: p, still_held: false };
        if a.contains(gone) {
            let j = choose|j: int| 0 <= j < a.len() && a[j] == gone;
            if j < i {
                assert(b[j] == gone);
            }
        }
        if b.contains(gone) {
            let j = choose|j: int| 0 <= j < b.len() && b[j] == gone;
            assert(a[j] == gone);
        }
        if !records[i].still_held && p == records[i].peer {
            assert(a[i] == gone);
        }
    }
    assert(evicted(a) =~= goal);
}

/// The name of the one topic that all traffic of this protocol shares.
pub fn topic() -> (name: &'static str)
    ensures
        name@ == "blocks"@,
{
    "blocks"
}

/// The partial view, the queue of decoded events and the payloads that wait
/// to be published. The partial view holds no peer twice.
pub struct PeerBehaviour {
    partial_view: Vec<PeerId>,
    events: Vec<(PeerId, Message)>,
    outbound: Vec<Vec<u8>>,
}

impl PeerBehaviour {
    /// No peer is held twice.
    #[verifier::type_invariant]
    closed spec fn wf(&self) -> bool {
        self.partial_view@.no_duplicates()
    }

    /// The peers that a broadcast reaches.
    pub closed spec fn partial_view(&self) -> Set<PeerId> {
        listed(self.partial_view@)
    }

    /// The decoded messages that wait to be polled, oldest first.
    pub closed spec fn events(&self) -> Seq<(PeerId, MessageView)> {
        event_views(self.events@)
    }

    /// The payloads that wait to be published on the topic, oldest first.
    pub closed spec fn outbound(&self) -> Seq<Seq<u8>> {
        payload_views(self.outbound@)
    }

    /// A behaviour that knows no peer and holds no event and no payload.
    pub fn new() -> (behaviour: Self)
        ensures
            behaviour.partial_view() == Set::<PeerId>::empty(),
            behaviour.events() == Seq::<(PeerId, MessageView)>::empty(),
            behaviour.outbound() == Seq::<Seq<u8>>::empty(),
    {
        let behaviour = PeerBehaviour {
            partial_view: Vec::new(),
            events: Vec::new(),
            outbound: Vec::new(),
        };
        assert(behaviour.partial_view() =~= Set::<PeerId>::empty());
        assert(behaviour.events() =~= Seq::<(PeerId, MessageView)>::empty());
        assert(behaviour.outbound() =~= Seq::<Seq<u8>>::empty());
        behaviour
    }

    /// Whether a broadcast reaches `peer`.
    pub fn has_peer(&self, peer: &PeerId) -> (found: bool)
        ensures
            found == self.partial_view().contains(*peer),
    {
        let mut i: usize = 0;
        while i < self.partial_view.len()
            invariant
                i <= self.partial_view@.len(),
                forall|j: int| 0 <= j < i ==> self.partial_view@[j] != *peer,
            decreases self.partial_view@.len() - i,
        {
            if self.partial_view[i].key == peer.key {
                return true;
            }
            i += 1;
        }
        false
    }

    /// The number of peers in the partial view.
    pub fn peer_count(&self) -> (count: usize)
        ensures
            count == self.partial_view().len(),
            self.partial_view().finite(),
    {
        proof {
            use_type_invariant(&*self);
            self.partial_view@.unique_seq_to_set();
            assert(self.partial_view@.to_set() =~= self.partial_view());
        }
        self.partial_view.len()
    }

    /// Adds `peer` to the partial view. Adding a peer that is in it changes
    /// nothing.
    pub fn add_node_to_partial_view(&mut self, peer: PeerId)
        ensures
            final(self).partial_view() == old(self).partial_view().insert(peer),
            final(self).events() == old(self).events(),
            final(self).outbound() == old(self).outbound(),
    {
        proof {
            use_type_invariant(&*self);
        }
        if !self.has_peer(&peer) {
            let mut held: Vec<PeerId> = Vec::new();
            core::mem::swap(&mut self.partial_view, &mut held);
            held.push(peer);
            self.partial_view = held;
            proof {
                let before = old(self).partial_view@;
                let after = self.partial_view@;
                assert(after.take(before.len() as int) =~= before);
                assert(after.take(before.len() as int + 1) =~= after);
                lemma_listed_step(after, before.len() as int);
            }
        } else {
            assert(old(self).partial_view().insert(peer) =~= old(self).partial_view());
        }
    }

    /// Takes `peer` out of the partial view. Removing a peer that is not in
    /// it changes nothing.
    pub fn remove_node_from_partial_view(&mut self, peer: &PeerId)
        ensures
            final(self).partial_view() == old(self).partial_view().remove(*peer),
            final(self).events() == old(self).events(),
            final(self).outbound() == old(self).outbound(),
    {
        proof {
            use_type_invariant(&*self);
        }
        let mut i: usize = 0;
        while i < self.partial_view.len()
            invariant
                *self == *old(self),
                self.partial_view@.no_duplicates(),
                i <= self.partial_view@.len(),
                forall|j: int| 0 <= j < i ==> self.partial_view@[j] != *peer,
            decreases self.partial_view@.len() - i,
        {
            if self.partial_view[i].key == peer.key {
                let mut held: Vec<PeerId> = Vec::new();
                core::mem::swap(&mut self.partial_view, &mut held);
                held.remove(i);
                proof {
                    let before = old(self).partial_view@;
                    let after = held@;
                    assert(before[i as int] == *peer);
                    assert(after =~= before.remove(i as int));
                    assert forall|a: int, b: int|
                        0 <= a < after.len() && 0 <= b < after.len() && a != b implies after[a]
                        != after[b] by {
                        let a0 = if a < i { a } else { a + 1 };
                        let b0 = if b < i { b } else { b + 1 };
                        assert(after[a] == before[a0] && after[b] == before[b0]);
                    }
                    assert forall|p: PeerId| after.contains(p) == (before.contains(p) && p
                        != *peer) by {
                        if after.contains(p) {
                            let j = choose|j: int| 0 <= j < after.len() && after[j] == p;
                            if j < i {
                                assert(before[j] == p);
                            } else {
                                assert(before[j + 1] == p);
                            }
                        }
                        if before.contains(p) && p != *peer {
                            let j = choose|j: int| 0 <= j < before.len() && before[j] == p;
                            if j < i {
                                assert(after[j] == p);
                            } else {
                                assert(after[j - 1] == p);
                            }
                        }
                    }
                }
                self.partial_view = held;
                assert(self.partial_view() =~= old(self).partial_view().remove(*peer));
                return ;
            }
            i += 1;
        }
        assert(old(self).partial_view().remove(*peer) =~= old(self).partial_view());
    }

    /// The DHT found `peer`: it joins the partial view. The DHT never takes a
    /// peer out.
    pub fn on_dht_discovered(&mut self, peer: PeerId)
        ensures
            final(self).partial_view() == old(self).partial_view().insert(peer),
            final(self).events() == old(self).events(),
            final(self).outbound() == old(self).outbound(),
    {
        self.add_node_to_partial_view(peer);
    }

    /// Local discovery found `peers`: each joins the partial view.
    pub fn on_local_discovered(&mut self, peers: &Vec<PeerId>)
        ensures
            final(self).partial_view() == after_discovery(old(self).partial_view(), peers@),
            final(self).events() == old(self).events(),
            final(self).outbound() == old(self).outbound(),
    {
        let mut i: usize = 0;
        assert(after_discovery(self.partial_view(), peers@.take(0)) =~= self.partial_view());
        while i < peers.len()
            invariant
                i <= peers@.len(),
                self.partial_view() == after_discovery(
                    old(self).partial_view(),
                    peers@.take(i as int),
                ),
                self.events() == old(self).events(),
                self.outbound() == old(self).outbound(),
            decreases peers@.len() - i,
        {
            self.add_node_to_partial_view(peers[i]);
            proof {
                lemma_listed_step(peers@, i as int);
                assert(after_discovery(old(self).partial_view(), peers@.take(i + 1))
                    =~= after_discovery(old(self).partial_view(), peers@.take(i as int)).insert(
                    peers@[i as int],
                ));
            }
            i += 1;
        }
        assert(peers@.take(i as int) =~= peers@);
    }

    /// Local-discovery records ran out: a peer leaves the partial view where
    /// a record names it that local discovery backs with no other. What the
    /// DHT knows of the peer is not asked.
    pub fn on_local_expired(&mut self, records: &Vec<LocalExpiry>)
        ensures
            final(self).partial_view() == after_expiry(old(self).partial_view(), records@),
            final(self).events() == old(self).events(),
            final(self).outbound() == old(self).outbound(),
    {
        let mut i: usize = 0;
        assert(after_expiry(self.partial_view(), records@.take(0)) =~= self.partial_view());
        while i < records.len()
            invariant
                i <= records@.len(),
                self.partial_view() == after_expiry(
                    old(self).partial_view(),
                    records@.take(i as int),
                ),
                self.events() == old(self).events(),
                self.outbound() == old(self).outbound(),
            decreases records@.len() - i,
        {
            let record = records[i];
            proof {
                lemma_evicted_step(records@, i as int);
            }
            if !record.still_held {
                self.remove_node_from_partial_view(&record.peer);
                assert(after_expiry(old(self).partial_view(), records@.take(i + 1))
                    =~= after_expiry(old(self).partial_view(), records@.take(i as int)).remove(
                    record.peer,
                ));
            }
            i += 1;
        }
        assert(records@.take(i as int) =~= records@);
    }

    /// A raw payload arrived from `source`. A payload that decodes is queued
    /// behind the events that wait; one that does not is dropped, and the
    /// reason is handed back for the diagnostics.
    pub fn on_gossip(&mut self, source: PeerId, data: &[u8]) -> (out: Result<(), DecodeError>)
        ensures
            final(self).partial_view() == old(self).partial_view(),
            final(self).outbound() == old(self).outbound(),
            match decode_spec(data@) {
                Ok(message) => out == Ok::<(), DecodeError>(()) && final(self).events() == old(
                    self).events().push((source, message)),
                Err(reason) => out == Err::<(), DecodeError>(reason) && final(self).events()
                    == old(self).events(),
            },
    {
        proof {
            use_type_invariant(&*self);
        }
        match Message::decode(data) {
            Ok(message) => {
                let mut queue: Vec<(PeerId, Message)> = Vec::new();
                core::mem::swap(&mut self.events, &mut queue);
                queue.push((source, message));
                self.events = queue;
                assert(self.events() =~= old(self).events().push((source, message@)));
                Ok(())
            },
            Err(reason) => Err(reason),
        }
    }

    /// Takes one notice of a sub-protocol. Only a gossip payload can be
    /// refused, and only for not being a message.
    pub fn inject(&mut self, notice: &Notice) -> (out: Result<(), DecodeError>)
        ensures
            final(self).outbound() == old(self).outbound(),
            final(self).partial_view() == view_after(old(self).partial_view(), *notice),
            final(self).events() == events_after(old(self).events(), *notice),
            out == match refusal(*notice) {
                Some(reason) => Err::<(), DecodeError>(reason),
                None => Ok(()),
            },
    {
        match notice {
            Notice::Gossip { source, data } => self.on_gossip(*source, data.as_slice()),
            Notice::DhtDiscovered { peer } => {
                self.on_dht_discovered(*peer);
                Ok(())
            },
            Notice::LocalDiscovered { peers } => {
                self.on_local_discovered(peers);
                Ok(())
            },
            Notice::LocalExpired { records } => {
                self.on_local_expired(records);
                Ok(())
            },
        }
    }

    /// Takes every notice that the sub-protocols hold, in order, so that a
    /// poll that follows sees all of them. The answer lists why payloads
    /// were dropped.
    pub fn drain(&mut self, notices: &Vec<Notice>) -> (dropped: Vec<DecodeError>)
        ensures
            final(self).outbound() == old(self).outbound(),
            final(self).partial_view() == view_after_all(old(self).partial_view(), notices@),
            final(self).events() == events_after_all(old(self).events(), notices@),
            dropped@ == refusals(notices@),
    {
        let mut dropped: Vec<DecodeError> = Vec::new();
        let mut i: usize = 0;
        while i < notices.len()
            invariant
                i <= notices@.len(),
                self.outbound() == old(self).outbound(),
                self.partial_view() == view_after_all(
                    old(self).partial_view(),
                    notices@.take(i as int),
                ),
                self.events() == events_after_all(old(self).events(), notices@.take(i as int)),
                dropped@ == refusals(notices@.take(i as int)),
            decreases notices@.len() - i,
        {
            proof {
                assert(notices@.take(i + 1).drop_last() =~= notices@.take(i as int));
                assert(notices@.take(i + 1).last() == notices@[i as int]);
            }
            match self.inject(&notices[i]) {
                Ok(_) => {},
                Err(reason) => {
                    dropped.push(reason);
                },
            }
            i += 1;
        }
        assert(notices@.take(i as int) =~= notices@);
        dropped
    }

    /// Hands out the oldest event that waits, or `None` when none does
    /// ("not ready").
    pub fn poll(&mut self) -> (out: Option<(PeerId, Message)>)
        ensures
            final(self).partial_view() == old(self).partial_view(),
            final(self).outbound() == old(self).outbound(),
            old(self).events().len() == 0 ==> out is None && final(self).events() == old(
                self).events(),
            old(self).events().len() > 0 ==> (out matches Some(event) && (event.0, event.1@) == old(
                self).events()[0] && final(self).events() == old(self).events().drop_first()),
    {
        proof {
            use_type_invariant(&*self);
        }
        if self.events.len() == 0 {
            return None;
        }
        let mut queue: Vec<(PeerId, Message)> = Vec::new();
        core::mem::swap(&mut self.events, &mut queue);
        let event = queue.remove(0);
        self.events = queue;
        assert(self.events() =~= old(self).events().drop_first());
        Some(event)
    }

    /// The number of events that wait to be polled.
    pub fn pending_events(&self) -> (count: usize)
        ensures
            count == self.events().len(),
    {
        self.events.len()
    }

    /// Publishes `message` on the topic. The topic does not tell one receiver
    /// from all: the whole partial view sees what is meant for one peer.
    pub fn send(&mut self, _peer: &PeerId, message: &Message)
        ensures
            final(self).partial_view() == old(self).partial_view(),
            final(self).events() == old(self).events(),
            final(self).outbound() == old(self).outbound().push(encode_spec(message@)),
    {
        self.broadcast(message);
    }

    /// Publishes `message` on the topic.
    pub fn broadcast(&mut self, message: &Message)
        ensures
            final(self).partial_view() == old(self).partial_view(),
            final(self).events() == old(self).events(),
            final(self).outbound() == old(self).outbound().push(encode_spec(message@)),
    {
        proof {
            use_type_invariant(&*self);
        }
        let data = message.encode();
        let mut waiting: Vec<Vec<u8>> = Vec::new();
        core::mem::swap(&mut self.outbound, &mut waiting);
        waiting.push(data);
        self.outbound = waiting;
        assert(self.outbound() =~= old(self).outbound().push(encode_spec(message@)));
    }

    /// Hands out the payloads that wait to be published, oldest first, and
    /// keeps none.
    pub fn take_outbound(&mut self) -> (payloads: Vec<Vec<u8>>)
        ensures
            final(self).partial_view() == old(self).partial_view(),
            final(self).events() == old(self).events(),
            payload_views(payloads@) == old(self).outbound(),
            final(self).outbound() == Seq::<Seq<u8>>::empty(),
    {
        proof {
            use_type_invariant(&*self);
        }
        let mut payloads: Vec<Vec<u8>> = Vec::new();
        core::mem::swap(&mut self.outbound, &mut payloads);
        assert(self.outbound() =~= Seq::<Seq<u8>>::empty());
        payloads
    }
}

} // verus!
