use vstd::prelude::*;

use crate::channel::{Channel, ChannelId, SendOutcome};
use crate::channel_message::ChannelMessage;
use crate::channel_sender::ChannelSender;

verus! {

/// Relays the RTP packets of one track of a producer.
#[derive(Debug)]
pub struct WebRtcMediaReceiver {
    channel_sender: ChannelSender,
}

impl WebRtcMediaReceiver {
    pub closed spec fn spec_channel_id(&self) -> ChannelId {
        self.channel_sender.channel_id()
    }

    pub fn new(channel_sender: ChannelSender) -> (receiver: WebRtcMediaReceiver)
        ensures
            receiver.channel_id() == channel_sender.channel_id(),
    {
        WebRtcMediaReceiver { channel_sender }
    }

    /// The relay channel that the packets go to.
    #[verifier::when_used_as_spec(spec_channel_id)]
    pub fn channel_id(&self) -> (id: ChannelId)
        ensures
            id == self.channel_id(),
    {
        self.channel_sender.channel_id()
    }

    /// A packet was read from the track and written out again into `packet`,
    /// a buffer of the size that the packet said it needs; `written` is the
    /// number of bytes that the writing reports. Where the two agree the
    /// buffer is offered to `channel` as one media frame. Where they differ
    /// the packet is not trusted: nothing is offered and `None` is returned.
    pub fn on_packet(&self, channel: &mut Channel, packet: Vec<u8>, written: usize) -> (outcome:
        Option<SendOutcome>)
        ensures
            outcome is Some <==> written == packet@.len(),
            written != packet@.len() ==> final(channel)@ == old(channel)@,
            written == packet@.len() && self.channel_id() != old(channel)@.channel_id ==> outcome
                == Some(SendOutcome::Foreign) && final(channel)@ == old(channel)@,
            written == packet@.len() && self.channel_id() == old(channel)@.channel_id ==> outcome
                == Some(old(channel)@.send_outcome()) && final(channel)@ == old(channel)@.send(
                ChannelMessage::Media(packet),
            ),
    {
        if written == packet.len() {
            Some(self.channel_sender.send(channel, ChannelMessage::Media(packet)))
        } else {
            None
        }
    }
}

} // verus!
