use vstd::prelude::*;

use crate::channel::{Channel, ChannelId, SendOutcome};
use crate::channel_message::ChannelMessage;

verus! {

/// The producer's endpoint of a relay channel.
#[derive(Clone, Debug)]
pub struct ChannelSender {
    channel_id: ChannelId,
}

impl ChannelSender {
    pub closed spec fn spec_channel_id(&self) -> ChannelId {
        self.channel_id
    }

    pub fn new(channel_id: ChannelId) -> (sender: ChannelSender)
        ensures
            sender.channel_id() == channel_id,
    {
        ChannelSender { channel_id }
    }

    #[verifier::when_used_as_spec(spec_channel_id)]
    pub fn channel_id(&self) -> (id: ChannelId)
        ensures
            id == self.channel_id(),
    {
        self.channel_id
    }

    /// Offers `message` to `channel`. The frame is enqueued exactly when the
    /// channel is this endpoint's own, its consumer has asked for a frame
    /// before, and its producer side is open; otherwise it is dropped and the
    /// channel stays as it was.
    pub fn send(&self, channel: &mut Channel, message: ChannelMessage) -> (outcome: SendOutcome)
        ensures
            self.channel_id() != old(channel)@.channel_id ==> outcome == SendOutcome::Foreign
                && final(channel)@ == old(channel)@,
            self.channel_id() == old(channel)@.channel_id ==> outcome == old(channel)@.send_outcome()
                && final(channel)@ == old(channel)@.send(message),
    {
        if self.channel_id.0 != channel.channel_id().0 {
            SendOutcome::Foreign
        } else {
            channel.push(message)
        }
    }

    /// The producer is gone: closes the producer side of `channel`, if the
    /// channel is this endpoint's own. The frames in flight stay for the
    /// consumer, which meets the end of the stream behind them.
    pub fn close(&self, channel: &mut Channel) -> (closed: bool)
        ensures
            closed == (self.channel_id() == old(channel)@.channel_id),
            closed ==> final(channel)@ == old(channel)@.close(),
            !closed ==> final(channel)@ == old(channel)@,
    {
        if self.channel_id.0 != channel.channel_id().0 {
            false
        } else {
            channel.close();
            true
        }
    }
}

} // verus!
