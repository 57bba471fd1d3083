use vstd::prelude::*;

use crate::channel::{Channel, ChannelId, SendOutcome};
use crate::channel_message::ChannelMessage;
use crate::channel_sender::ChannelSender;

verus! {

/// Relays the messages of one data channel of a producer.
#[derive(Debug)]
pub struct WebRtcDataReceiver {
    channel_sender: ChannelSender,
}

impl WebRtcDataReceiver {
    pub closed spec fn spec_channel_id(&self) -> ChannelId {
        self.channel_sender.channel_id()
    }

    pub fn new(channel_sender: ChannelSender) -> (receiver: WebRtcDataReceiver)
        ensures
            receiver.channel_id() == channel_sender.channel_id(),
    {
        WebRtcDataReceiver { channel_sender }
    }

    /// The relay channel that the messages go to.
    #[verifier::when_used_as_spec(spec_channel_id)]
    pub fn channel_id(&self) -> (id: ChannelId)
        ensures
            id == self.channel_id(),
    {
        self.channel_sender.channel_id()
    }

    /// A message has come on the data channel: all its bytes, as they are,
    /// are offered to `channel` as one data frame.
    pub fn on_message(&self, channel: &mut Channel, data: Vec<u8>) -> (outcome: SendOutcome)
        ensures
            self.channel_id() != old(channel)@.channel_id ==> outcome == SendOutcome::Foreign
                && final(channel)@ == old(channel)@,
            self.channel_id() == old(channel)@.channel_id ==> outcome == old(channel)@.send_outcome()
                && final(channel)@ == old(channel)@.send(ChannelMessage::Data(data)),
    {
        self.channel_sender.send(channel, ChannelMessage::Data(data))
    }
}

} // verus!
