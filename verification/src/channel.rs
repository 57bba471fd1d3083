//! The relay channel: a lossless first-in-first-out queue of frames from one
//! producer to one consumer, which admits no frame before its consumer is there.
//!
//! Frames offered before the consumer has ever asked for one are dropped, so
//! that a producer whose consumer never arrives cannot fill memory. Once the
//! consumer has asked, every frame is admitted, for good.

use std::collections::VecDeque;
use vstd::prelude::*;

use crate::channel_message::ChannelMessage;
use crate::channel_receiver::ChannelReceiver;
use crate::channel_sender::ChannelSender;

verus! {

/// Identifier of a relay channel, assigned by the registry in creation order.
#[derive(Clone, Copy, Debug, PartialEq, Eq, Hash, Structural)]
pub struct ChannelId(pub u32);

/// What became of a frame offered to a channel.
#[derive(Clone, Copy, Debug, PartialEq, Eq, Hash, Structural)]
pub enum SendOutcome {
    /// The frame is now the last of the queue.
    Enqueued,
    /// No consumer has asked for a frame yet: the frame was dropped.
    NoReceiver,
    /// The producer side was closed before: the frame was dropped.
    Closed,
    /// The endpoint belongs to another channel: the frame was dropped.
    Foreign,
}

/// What a consumer gets when it asks for a frame.
#[derive(Clone, Debug, PartialEq, Eq, Hash)]
pub enum Received {
    /// The oldest frame of the queue, now removed from it.
    Frame(ChannelMessage),
    /// The queue is empty and the producer side is open: ask again later.
    Pending,
    /// The queue is empty and the producer side is closed: no frame will come.
    EndOfStream,
    /// The endpoint belongs to another channel: nothing was touched.
    Foreign,
}

/// The state of a relay channel. Both endpoints of a channel act on the one
/// value of this type that has their identifier.
#[derive(Debug)]
pub struct Channel {
    channel_id: ChannelId,
    queue: VecDeque<ChannelMessage>,
    has_receiver: bool,
    closed: bool,
}

/// A relay channel as mathematical values.
pub struct ChannelView {
    pub channel_id: ChannelId,
    /// The frames in flight, oldest first.
    pub queue: Seq<ChannelMessage>,
    /// Whether the consumer has ever asked for a frame.
    pub has_receiver: bool,
    /// Whether the producer side was closed.
    pub closed: bool,
}

impl ChannelView {
    /// A channel on which nothing has happened yet.
    pub open spec fn fresh(channel_id: ChannelId) -> ChannelView {
        ChannelView { channel_id, queue: Seq::empty(), has_receiver: false, closed: false }
    }

    /// Whether a frame offered now would be enqueued.
    pub open spec fn admits(self) -> bool {
        self.has_receiver && !self.closed
    }

    /// The outcome of offering a frame through the channel's own endpoint.
    pub open spec fn send_outcome(self) -> SendOutcome {
        if self.closed {
            SendOutcome::Closed
        } else if !self.has_receiver {
            SendOutcome::NoReceiver
        } else {
            SendOutcome::Enqueued
        }
    }

    /// The channel after `message` was offered through its own endpoint.
    pub open spec fn send(self, message: ChannelMessage) -> ChannelView {
        if self.admits() {
            ChannelView { queue: self.queue.push(message), ..self }
        } else {
            self
        }
    }

    /// What the channel's own consumer endpoint gets when it asks now.
    pub open spec fn received(self) -> Received {
        if self.queue.len() > 0 {
            Received::Frame(self.queue[0])
        } else if self.closed {
            Received::EndOfStream
        } else {
            Received::Pending
        }
    }

    /// The channel after its own consumer endpoint asked for a frame.
    pub open spec fn recv(self) -> ChannelView {
        ChannelView {
            queue: if self.queue.len() > 0 {
                self.queue.subrange(1, self.queue.len() as int)
            } else {
                self.queue
            },
            has_receiver: true,
            ..self
        }
    }

    /// The channel after its producer side was closed.
    pub open spec fn close(self) -> ChannelView {
        ChannelView { closed: true, ..self }
    }

    /// The channel after each of `messages` was offered in turn.
    pub open spec fn send_all(self, messages: Seq<ChannelMessage>) -> ChannelView
        decreases messages.len(),
    {
        if messages.len() == 0 {
            self
        } else {
            self.send(messages[0]).send_all(messages.subrange(1, messages.len() as int))
        }
    }

    /// The channel after the consumer asked `n` times.
    pub open spec fn recv_times(self, n: nat) -> ChannelView
        decreases n,
    {
        if n == 0 {
            self
        } else {
            self.recv().recv_times((n - 1) as nat)
        }
    }

    /// What the consumer got in `n` askings, in order.
    pub open spec fn received_in(self, n: nat) -> Seq<Received>
        decreases n,
    {
        if n == 0 {
            Seq::empty()
        } else {
            seq![self.received()] + self.recv().received_in((n - 1) as nat)
        }
    }
}

impl View for Channel {
    type V = ChannelView;

    closed spec fn view(&self) -> ChannelView {
        ChannelView {
            channel_id: self.channel_id,
            queue: self.queue@,
            has_receiver: self.has_receiver,
            closed: self.closed,
        }
    }
}

impl Channel {
    /// A channel with no frame in flight that admits none yet, its producer side open.
    pub fn new(channel_id: ChannelId) -> (channel: Channel)
        ensures
            channel@ == ChannelView::fresh(channel_id),
    {
        Channel { channel_id, queue: VecDeque::new(), has_receiver: false, closed: false }
    }

    /// The two endpoints of this channel: the producer's, then the consumer's.
    pub fn split(&self) -> (ends: (ChannelSender, ChannelReceiver))
        ensures
            ends.0.channel_id() == self@.channel_id,
            ends.1.channel_id() == self@.channel_id,
    {
        (ChannelSender::new(self.channel_id), ChannelReceiver::new(self.channel_id))
    }

    pub fn channel_id(&self) -> (id: ChannelId)
        ensures
            id == self@.channel_id,
    {
        self.channel_id
    }

    /// The number of frames in flight.
    pub fn len(&self) -> (n: usize)
        ensures
            n == self@.queue.len(),
    {
        self.queue.len()
    }

    /// Whether the consumer has ever asked for a frame.
    pub fn has_receiver(&self) -> (b: bool)
        ensures
            b == self@.has_receiver,
    {
        self.has_receiver
    }

    /// Whether the producer side was closed.
    pub fn is_closed(&self) -> (b: bool)
        ensures
            b == self@.closed,
    {
        self.closed
    }

    /// Closes the producer side: the frames in flight stay, none is admitted
    /// any more, and the consumer meets the end of the stream behind them.
    pub fn close(&mut self)
        ensures
            final(self)@ == old(self)@.close(),
    {
        self.closed = true;
    }

    /// Offers `message`, which is admitted or dropped.
    pub(crate) fn push(&mut self, message: ChannelMessage) -> (outcome: SendOutcome)
        ensures
            final(self)@ == old(self)@.send(message),
            outcome == old(self)@.send_outcome(),
    {
        if self.closed {
            SendOutcome::Closed
        } else if !self.has_receiver {
            SendOutcome::NoReceiver
        } else {
            self.queue.push_back(message);
            SendOutcome::Enqueued
        }
    }

    /// Admits frames from now on and takes the oldest frame, if there is one.
    pub(crate) fn pop(&mut self) -> (received: Received)
        ensures
            final(self)@ == old(self)@.recv(),
            received == old(self)@.received(),
    {
        self.has_receiver = true;
        match self.queue.pop_front() {
            Some(message) => Received::Frame(message),
            None => {
                if self.closed {
                    Received::EndOfStream
                } else {
                    Received::Pending
                }
            },
        }
    }
}

/// Once the consumer has asked for a frame, the channel admits frames whatever
/// happens to the channel afterwards.
pub proof fn law_admission_is_sticky(view: ChannelView, message: ChannelMessage)
    ensures
        view.recv().has_receiver,
        view.has_receiver ==> view.send(message).has_receiver && view.close().has_receiver,
{
}

/// Until the consumer has asked for a frame, every frame offered is dropped:
/// the channel holds nothing of them.
pub proof fn law_no_admission_before_receiver(view: ChannelView, messages: Seq<ChannelMessage>)
    requires
        !view.has_receiver,
    ensures
        view.send_all(messages) == view,
    decreases messages.len(),
{
    if messages.len() > 0 {
        law_no_admission_before_receiver(view, messages.subrange(1, messages.len() as int));
    }
}

/// A channel that admits frames is lossless and keeps the order: the frames
/// offered join the queue, each once, in the order offered.
pub proof fn law_send_appends(view: ChannelView, messages: Seq<ChannelMessage>)
    requires
        view.admits(),
    ensures
        view.send_all(messages) == (ChannelView { queue: view.queue + messages, ..view }),
    decreases messages.len(),
{
    if messages.len() == 0 {
        assert(view.queue + messages =~= view.queue);
    } else {
        let rest = messages.subrange(1, messages.len() as int);
        law_send_appends(view.send(messages[0]), rest);
        assert(view.queue.push(messages[0]) + rest =~= view.queue + messages);
    }
}

/// The consumer gets the frames in flight oldest first: asking `n` times,
/// with at least `n` frames in flight, yields the first `n` of the queue in
/// order and leaves the others.
pub proof fn law_recv_in_order(view: ChannelView, n: nat)
    requires
        n <= view.queue.len(),
    ensures
        view.received_in(n) == view.queue.take(n as int).map_values(
            |m: ChannelMessage| Received::Frame(m),
        ),
        view.recv_times(n).queue == view.queue.skip(n as int),
        view.recv_times(n).closed == view.closed,
        view.recv_times(n).channel_id == view.channel_id,
    decreases n,
{
    let frame = |m: ChannelMessage| Received::Frame(m);
    if n == 0 {
        assert(view.received_in(n) =~= view.queue.take(0).map_values(frame));
        assert(view.queue.skip(0) =~= view.queue);
    } else {
        let next = view.recv();
        law_recv_in_order(next, (n - 1) as nat);
        assert(next.queue.skip(n - 1) =~= view.queue.skip(n as int));
        assert(seq![view.received()] + next.queue.take(n - 1).map_values(frame)
            =~= view.queue.take(n as int).map_values(frame));
    }
}

/// What the producer offers to a channel that admits frames is what the consumer gets,
/// frame for frame and in the same order, behind whatever was in flight.
pub proof fn law_relay_in_order(view: ChannelView, messages: Seq<ChannelMessage>)
    requires
        view.admits(),
    ensures
        view.send_all(messages).received_in(view.queue.len() + messages.len()) == (view.queue
            + messages).map_values(|m: ChannelMessage| Received::Frame(m)),
{
    law_send_appends(view, messages);
    let all = view.queue + messages;
    law_recv_in_order(view.send_all(messages), all.len());
    assert(all.take(all.len() as int) =~= all);
}

/// When the producer side is closed, the consumer still gets every frame in
/// flight, and after the last of them the end of the stream, again and again.
pub proof fn law_end_of_stream(view: ChannelView)
    requires
        view.closed,
    ensures
        view.recv_times(view.queue.len()).received() == Received::EndOfStream,
        view.recv_times(view.queue.len()).recv().received() == Received::EndOfStream,
        forall|message: ChannelMessage| #[trigger] view.send(message) == view,
{
    law_recv_in_order(view, view.queue.len());
}

} // verus!
