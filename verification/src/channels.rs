//! The rendezvous registry: pairs each producer with one consumer, first come
//! first served, by handing both the endpoints of one relay channel.

use std::collections::VecDeque;
use vstd::prelude::*;

use crate::channel::{Channel, ChannelId};
use crate::channel_receiver::ChannelReceiver;
use crate::channel_sender::ChannelSender;

verus! {

/// The side of a relay channel that a peer asks for.
#[derive(Clone, Copy, Debug, PartialEq, Eq, Hash, Structural)]
pub enum EndpointKind {
    /// The producer's endpoint.
    Sender,
    /// The consumer's endpoint.
    Receiver,
}

/// The registry as mathematical values.
pub struct ChannelsView {
    /// Channels whose consumer has arrived and whose producer has not, oldest first.
    pub senders: Seq<ChannelId>,
    /// Channels whose producer has arrived and whose consumer has not, oldest first.
    pub receivers: Seq<ChannelId>,
    /// The identifier of the next channel to be created.
    pub next_channel_id: u32,
}

/// The number that follows `id`; 0 follows the largest.
pub open spec fn next_id(id: u32) -> u32 {
    if id == u32::MAX {
        0
    } else {
        (id + 1) as u32
    }
}

impl ChannelsView {
    pub open spec fn empty() -> ChannelsView {
        ChannelsView { senders: Seq::empty(), receivers: Seq::empty(), next_channel_id: 0 }
    }

    /// No producer waits while a consumer waits.
    pub open spec fn wf(self) -> bool {
        self.senders.len() == 0 || self.receivers.len() == 0
    }

    /// Whether a peer asking for `kind` finds a partner waiting.
    pub open spec fn partner_waits(self, kind: EndpointKind) -> bool {
        match kind {
            EndpointKind::Sender => self.senders.len() > 0,
            EndpointKind::Receiver => self.receivers.len() > 0,
        }
    }

    /// The channel whose endpoint a peer asking for `kind` is handed: that of
    /// the partner that has waited longest, or a new one.
    pub open spec fn claimed(self, kind: EndpointKind) -> ChannelId {
        match kind {
            EndpointKind::Sender => if self.senders.len() > 0 {
                self.senders[0]
            } else {
                ChannelId(self.next_channel_id)
            },
            EndpointKind::Receiver => if self.receivers.len() > 0 {
                self.receivers[0]
            } else {
                ChannelId(self.next_channel_id)
            },
        }
    }

    /// The registry after a peer asked for `kind`.
    pub open spec fn claim(self, kind: EndpointKind) -> ChannelsView {
        match kind {
            EndpointKind::Sender => if self.senders.len() > 0 {
                ChannelsView { senders: self.senders.subrange(1, self.senders.len() as int), ..self }
            } else {
                ChannelsView {
                    receivers: self.receivers.push(ChannelId(self.next_channel_id)),
                    next_channel_id: next_id(self.next_channel_id),
                    ..self
                }
            },
            EndpointKind::Receiver => if self.receivers.len() > 0 {
                ChannelsView {
                    receivers: self.receivers.subrange(1, self.receivers.len() as int),
                    ..self
                }
            } else {
                ChannelsView {
                    senders: self.senders.push(ChannelId(self.next_channel_id)),
                    next_channel_id: next_id(self.next_channel_id),
                    ..self
                }
            },
        }
    }

    /// The registry after the peers of `arrivals` asked in turn.
    pub open spec fn claim_all(self, arrivals: Seq<EndpointKind>) -> ChannelsView
        decreases arrivals.len(),
    {
        if arrivals.len() == 0 {
            self
        } else {
            self.claim_all(arrivals.drop_last()).claim(arrivals.last())
        }
    }

    /// The channel handed to the peer at position `i` of `arrivals`.
    pub open spec fn handed(self, arrivals: Seq<EndpointKind>, i: int) -> ChannelId
        recommends
            0 <= i < arrivals.len(),
    {
        self.claim_all(arrivals.take(i)).claimed(arrivals[i])
    }
}

/// How many of the first `n` of `arrivals` asked for `kind`.
pub open spec fn arrived(arrivals: Seq<EndpointKind>, kind: EndpointKind, n: int) -> nat
    decreases n,
{
    if n <= 0 || n > arrivals.len() {
        0
    } else {
        arrived(arrivals, kind, n - 1) + if arrivals[n - 1] == kind {
            1nat
        } else {
            0nat
        }
    }
}

/// The identifiers `from, from + 1, .., to - 1`.
pub open spec fn id_range(from: int, to: int) -> Seq<ChannelId> {
    Seq::new(
        if to >= from {
            (to - from) as nat
        } else {
            0
        },
        |k: int| ChannelId((from + k) as u32),
    )
}

/// The process-wide matcher of producers and consumers.
#[derive(Debug)]
pub struct Channels {
    senders: VecDeque<ChannelSender>,
    receivers: VecDeque<ChannelReceiver>,
    next_channel_id: u32,
}

/// What a peer is handed by the registry.
#[derive(Debug)]
pub struct Claim<E> {
    /// The peer's endpoint.
    pub endpoint: E,
    /// The channel itself, where this claim created it: no partner was
    /// waiting, and the partner to come will be handed the other endpoint.
    pub created: Option<Channel>,
}

impl View for Channels {
    type V = ChannelsView;

    closed spec fn view(&self) -> ChannelsView {
        ChannelsView {
            senders: self.senders@.map_values(|s: ChannelSender| s.channel_id()),
            receivers: self.receivers@.map_values(|r: ChannelReceiver| r.channel_id()),
            next_channel_id: self.next_channel_id,
        }
    }
}

impl Channels {
    /// A registry in which nobody waits; the first channel will be number 0.
    pub fn new() -> (channels: Channels)
        ensures
            channels@ == ChannelsView::empty(),
            channels@.wf(),
    {
        let channels = Channels {
            senders: VecDeque::new(),
            receivers: VecDeque::new(),
            next_channel_id: 0,
        };
        assert(channels@.senders =~= Seq::empty());
        assert(channels@.receivers =~= Seq::empty());
        channels
    }

    /// Hands a producer its endpoint. If a consumer waits, the producer joins
    /// the channel of the one that has waited longest. Otherwise a channel is
    /// created under the next identifier, the producer is handed it together
    /// with its endpoint, and the channel's other endpoint waits for the next
    /// consumer.
    pub fn sender(&mut self) -> (claim: Claim<ChannelSender>)
        ensures
            old(self)@.wf() ==> final(self)@.wf(),
            final(self)@ == old(self)@.claim(EndpointKind::Sender),
            claim.endpoint.channel_id() == old(self)@.claimed(EndpointKind::Sender),
            claim.created is Some <==> !old(self)@.partner_waits(EndpointKind::Sender),
            claim.created matches Some(channel) ==> channel@ == crate::channel::ChannelView::fresh(
                claim.endpoint.channel_id(),
            ),
    {
        let ghost before = self@;
        match self.senders.pop_front() {
            Some(sender) => {
                assert(self@.senders =~= before.senders.subrange(1, before.senders.len() as int));
                assert(self@.receivers =~= before.receivers);
                Claim { endpoint: sender, created: None }
            },
            None => {
                let channel_id = ChannelId(self.next_channel_id);
                let channel = Channel::new(channel_id);
                let (sender, receiver) = channel.split();
                self.receivers.push_back(receiver);
                self.next_channel_id = if self.next_channel_id == u32::MAX {
                    0
                } else {
                    self.next_channel_id + 1
                };
                assert(self@.senders =~= before.senders);
                assert(self@.receivers =~= before.receivers.push(channel_id));
                Claim { endpoint: sender, created: Some(channel) }
            },
        }
    }

    /// Hands a consumer its endpoint. If a producer waits, the consumer joins
    /// the channel of the one that has waited longest. Otherwise a channel is
    /// created under the next identifier, the consumer is handed it together
    /// with its endpoint, and the channel's other endpoint waits for the next
    /// producer.
    pub fn receiver(&mut self) -> (claim: Claim<ChannelReceiver>)
        ensures
            old(self)@.wf() ==> final(self)@.wf(),
            final(self)@ == old(self)@.claim(EndpointKind::Receiver),
            claim.endpoint.channel_id() == old(self)@.claimed(EndpointKind::Receiver),
            claim.created is Some <==> !old(self)@.partner_waits(EndpointKind::Receiver),
            claim.created matches Some(channel) ==> channel@ == crate::channel::ChannelView::fresh(
                claim.endpoint.channel_id(),
            ),
    {
        let ghost before = self@;
        match self.receivers.pop_front() {
            Some(receiver) => {
                assert(self@.receivers =~= before.receivers.subrange(
                    1,
                    before.receivers.len() as int,
                ));
                assert(self@.senders =~= before.senders);
                Claim { endpoint: receiver, created: None }
            },
            None => {
                let channel_id = ChannelId(self.next_channel_id);
                let channel = Channel::new(channel_id);
                let (sender, receiver) = channel.split();
                self.senders.push_back(sender);
                self.next_channel_id = if self.next_channel_id == u32::MAX {
                    0
                } else {
                    self.next_channel_id + 1
                };
                assert(self@.receivers =~= before.receivers);
                assert(self@.senders =~= before.senders.push(channel_id));
                Claim { endpoint: receiver, created: Some(channel) }
            },
        }
    }

    /// The number of producers' endpoints that wait for their producer.
    pub fn waiting_senders(&self) -> (n: usize)
        ensures
            n == self@.senders.len(),
    {
        self.senders.len()
    }

    /// The number of consumers' endpoints that wait for their consumer.
    pub fn waiting_receivers(&self) -> (n: usize)
        ensures
            n == self@.receivers.len(),
    {
        self.receivers.len()
    }
}

/// Counting arrivals in a prefix does not depend on what follows the prefix.
proof fn lemma_arrived_prefix(arrivals: Seq<EndpointKind>, kind: EndpointKind, m: int, n: int)
    requires
        0 <= n <= m <= arrivals.len(),
    ensures
        arrived(arrivals.take(m), kind, n) == arrived(arrivals, kind, n),
    decreases n,
{
    if n > 0 {
        lemma_arrived_prefix(arrivals, kind, m, n - 1);
    }
}

/// Counts of arrivals grow with the prefix, by at most one per arrival.
proof fn lemma_arrived_grows(arrivals: Seq<EndpointKind>, kind: EndpointKind, m: int, n: int)
    requires
        0 <= m <= n <= arrivals.len(),
    ensures
        arrived(arrivals, kind, m) <= arrived(arrivals, kind, n),
        arrived(arrivals, kind, n) <= arrived(arrivals, kind, m) + (n - m),
        m < n && arrivals[m] == kind ==> arrived(arrivals, kind, m) < arrived(arrivals, kind, n),
    decreases n - m,
{
    if m < n {
        lemma_arrived_grows(arrivals, kind, m, n - 1);
    }
}

/// Every arrival asked for one endpoint or the other.
proof fn lemma_arrived_total(arrivals: Seq<EndpointKind>, n: int)
    requires
        0 <= n <= arrivals.len(),
    ensures
        arrived(arrivals, EndpointKind::Sender, n) + arrived(arrivals, EndpointKind::Receiver, n)
            == n,
    decreases n,
{
    if n > 0 {
        lemma_arrived_total(arrivals, n - 1);
    }
}

/// The registry after `senders` producers and `receivers` consumers arrived,
/// in whatever order: the surplus of one side waits, oldest first.
pub open spec fn settled(senders: nat, receivers: nat) -> ChannelsView {
    ChannelsView {
        senders: id_range(senders as int, receivers as int),
        receivers: id_range(receivers as int, senders as int),
        next_channel_id: (if senders >= receivers {
            senders
        } else {
            receivers
        }) as u32,
    }
}

/// Starting with nobody waiting, the registry depends only on how many peers
/// of each side have arrived, not on their order: the channels are numbered
/// from 0 in creation order, and those of the side in surplus wait.
pub proof fn law_registry_settles(arrivals: Seq<EndpointKind>)
    requires
        arrivals.len() <= u32::MAX,
    ensures
        ChannelsView::empty().claim_all(arrivals) == settled(
            arrived(arrivals, EndpointKind::Sender, arrivals.len() as int),
            arrived(arrivals, EndpointKind::Receiver, arrivals.len() as int),
        ),
    decreases arrivals.len(),
{
    let n = arrivals.len() as int;
    let s = arrived(arrivals, EndpointKind::Sender, n);
    let r = arrived(arrivals, EndpointKind::Receiver, n);
    if n == 0 {
        assert(settled(0, 0).senders =~= Seq::empty());
        assert(settled(0, 0).receivers =~= Seq::empty());
    } else {
        let before = arrivals.drop_last();
        law_registry_settles(before);
        assert(before =~= arrivals.take(n - 1));
        lemma_arrived_prefix(arrivals, EndpointKind::Sender, n - 1, n - 1);
        lemma_arrived_prefix(arrivals, EndpointKind::Receiver, n - 1, n - 1);
        lemma_arrived_total(arrivals, n - 1);
        let s0 = arrived(arrivals, EndpointKind::Sender, n - 1);
        let r0 = arrived(arrivals, EndpointKind::Receiver, n - 1);
        let now = settled(s0, r0).claim(arrivals.last());
        assert(now.senders =~= settled(s, r).senders);
        assert(now.receivers =~= settled(s, r).receivers);
    }
}

/// First come, first served: starting with nobody waiting, the `k`-th peer of
/// a side (counting from 0) is handed an endpoint of channel `k`, whatever the
/// order in which the two sides arrive.
pub proof fn law_handed_in_arrival_order(arrivals: Seq<EndpointKind>, i: int)
    requires
        0 <= i < arrivals.len(),
        i <= u32::MAX,
    ensures
        ChannelsView::empty().handed(arrivals, i) == ChannelId(
            arrived(arrivals, arrivals[i], i) as u32,
        ),
{
    let before = arrivals.take(i);
    law_registry_settles(before);
    lemma_arrived_prefix(arrivals, EndpointKind::Sender, i, i);
    lemma_arrived_prefix(arrivals, EndpointKind::Receiver, i, i);
    lemma_arrived_total(arrivals, i);
}

/// A producer and a consumer are handed the same channel exactly when they
/// hold the same place among the arrivals of their sides: the registry pairs
/// the `k`-th producer with the `k`-th consumer and with nobody else.
pub proof fn law_pairs_share_channel(arrivals: Seq<EndpointKind>, i: int, j: int)
    requires
        arrivals.len() <= u32::MAX,
        0 <= i < arrivals.len(),
        0 <= j < arrivals.len(),
        arrivals[i] == EndpointKind::Sender,
        arrivals[j] == EndpointKind::Receiver,
    ensures
        ChannelsView::empty().handed(arrivals, i) == ChannelsView::empty().handed(arrivals, j)
            <==> arrived(arrivals, EndpointKind::Sender, i) == arrived(
            arrivals,
            EndpointKind::Receiver,
            j,
        ),
{
    law_handed_in_arrival_order(arrivals, i);
    law_handed_in_arrival_order(arrivals, j);
    lemma_arrived_grows(arrivals, EndpointKind::Sender, 0, i);
    lemma_arrived_grows(arrivals, EndpointKind::Receiver, 0, j);
}

/// No endpoint is handed out twice: two peers of the same side are handed
/// different channels.
pub proof fn law_one_holder_per_endpoint(arrivals: Seq<EndpointKind>, i: int, j: int)
    requires
        arrivals.len() <= u32::MAX,
        0 <= i < j < arrivals.len(),
        arrivals[i] == arrivals[j],
    ensures
        ChannelsView::empty().handed(arrivals, i) != ChannelsView::empty().handed(arrivals, j),
{
    law_handed_in_arrival_order(arrivals, i);
    law_handed_in_arrival_order(arrivals, j);
    lemma_arrived_grows(arrivals, arrivals[i], i, j);
    lemma_arrived_grows(arrivals, arrivals[i], 0, i);
    lemma_arrived_grows(arrivals, arrivals[i], 0, j);
}

/// Once as many producers as consumers have arrived, nobody waits: every peer
/// has its partner.
pub proof fn law_all_paired(arrivals: Seq<EndpointKind>)
    requires
        arrivals.len() <= u32::MAX,
        arrived(arrivals, EndpointKind::Sender, arrivals.len() as int) == arrived(
            arrivals,
            EndpointKind::Receiver,
            arrivals.len() as int,
        ),
    ensures
        ChannelsView::empty().claim_all(arrivals).senders.len() == 0,
        ChannelsView::empty().claim_all(arrivals).receivers.len() == 0,
{
    law_registry_settles(arrivals);
}

/// Producers and consumers never wait at the same time: a claim keeps it so.
pub proof fn law_one_side_waits(view: ChannelsView, kind: EndpointKind)
    requires
        view.wf(),
    ensures
        view.claim(kind).wf(),
{
}

} // verus!
