use vstd::prelude::*;

use crate::channel::{Channel, ChannelView};
use crate::channels::{Channels, EndpointKind};
use crate::protocol::ClientSenderMessage;
use crate::views::views;
use crate::webrtc_receiver::{ReceiverAction, ReceiverEvent, WebRtcReceiver, WebRtcReceiverView};

verus! {

/// The session of a producer: what it sends goes to its controller.
#[derive(Debug)]
pub struct SocketReceiver {
    pub webrtc_receiver: WebRtcReceiver,
}

/// What a message of a producer, or the end of its messages, is to its controller.
pub open spec fn receiver_event(message: Option<ClientSenderMessage>) -> ReceiverEvent {
    match message {
        Some(ClientSenderMessage::Offer(sdp)) => ReceiverEvent::Offer(sdp@),
        Some(ClientSenderMessage::IceCandidate(candidate)) => ReceiverEvent::RemoteCandidate(
            candidate@,
        ),
        Some(ClientSenderMessage::AllIceCandidatesSent) => ReceiverEvent::AllRemoteCandidatesSent,
        None => ReceiverEvent::Close,
    }
}

impl SocketReceiver {
    /// Begins the session of a producer: claims the producer's endpoint of a
    /// relay channel from the registry and begins the controller on it.
    /// Returned are the session, the channel if the claim created it, and what
    /// the driver is asked to do first.
    pub fn new(channels: &mut Channels) -> (begun: (
        SocketReceiver,
        Option<Channel>,
        Vec<ReceiverAction>,
    ))
        ensures
            final(channels)@ == old(channels)@.claim(EndpointKind::Sender),
            old(channels)@.wf() ==> final(channels)@.wf(),
            begun.0.webrtc_receiver@ == WebRtcReceiverView::fresh(
                old(channels)@.claimed(EndpointKind::Sender),
            ),
            begun.1 is Some <==> !old(channels)@.partner_waits(EndpointKind::Sender),
            begun.1 matches Some(channel) ==> channel@ == ChannelView::fresh(
                old(channels)@.claimed(EndpointKind::Sender),
            ),
            views(begun.2@) == WebRtcReceiverView::setup(),
    {
        let claim = channels.sender();
        let (webrtc_receiver, actions) = WebRtcReceiver::new(claim.endpoint);
        (SocketReceiver { webrtc_receiver }, claim.created, actions)
    }

    /// One turn of the session: `message` is the producer's next message, or
    /// `None` where there is none any more. A message goes to the controller
    /// as the event it is; the end of the messages ends the session. Returned
    /// are what the driver is asked to do, and whether the session goes on.
    pub fn run(&mut self, message: Option<ClientSenderMessage>) -> (turn: (
        Vec<ReceiverAction>,
        bool,
    ))
        ensures
            final(self).webrtc_receiver@ == old(self).webrtc_receiver@.step(
                receiver_event(message),
            ),
            views(turn.0@) == old(self).webrtc_receiver@.actions(receiver_event(message)),
            turn.1 == message is Some,
    {
        match message {
            Some(ClientSenderMessage::Offer(offer)) => {
                (self.webrtc_receiver.on_offer(offer), true)
            },
            Some(ClientSenderMessage::IceCandidate(candidate)) => {
                (self.webrtc_receiver.on_remote_icecandidate(candidate), true)
            },
            Some(ClientSenderMessage::AllIceCandidatesSent) => {
                (self.webrtc_receiver.on_all_remote_icecandidates_sent(), true)
            },
            None => (self.webrtc_receiver.close(), false),
        }
    }
}

} // verus!
