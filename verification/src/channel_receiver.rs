use vstd::prelude::*;

use crate::channel::{Channel, ChannelId, Received};

verus! {

/// The consumer's endpoint of a relay channel.
#[derive(Debug)]
pub struct ChannelReceiver {
    channel_id: ChannelId,
}

impl ChannelReceiver {
    pub closed spec fn spec_channel_id(&self) -> ChannelId {
        self.channel_id
    }

    pub fn new(channel_id: ChannelId) -> (receiver: ChannelReceiver)
        ensures
            receiver.channel_id() == channel_id,
    {
        ChannelReceiver { channel_id }
    }

    #[verifier::when_used_as_spec(spec_channel_id)]
    pub fn channel_id(&self) -> (id: ChannelId)
        ensures
            id == self.channel_id(),
    {
        self.channel_id
    }

    /// Asks `channel` for its oldest frame. On the endpoint's own channel this
    /// makes the channel admit frames for good, whether or not a frame is there; a
    /// caller that gets [`Received::Pending`] waits and asks again.
    pub fn recv(&self, channel: &mut Channel) -> (received: Received)
        ensures
            self.channel_id() != old(channel)@.channel_id ==> received == Received::Foreign
                && final(channel)@ == old(channel)@,
            self.channel_id() == old(channel)@.channel_id ==> received == old(channel)@.received()
                && final(channel)@ == old(channel)@.recv(),
    {
        if self.channel_id.0 != channel.channel_id().0 {
            Received::Foreign
        } else {
            channel.pop()
        }
    }
}

} // verus!
