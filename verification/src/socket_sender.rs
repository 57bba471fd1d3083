use vstd::prelude::*;

use crate::channel::{Channel, ChannelView};
use crate::channels::{Channels, EndpointKind};
use crate::protocol::ClientReceiverMessage;
use crate::views::views;
use crate::webrtc_sender::{SenderAction, SenderEvent, WebRtcSender, WebRtcSenderView};

verus! {

/// The session of a consumer: what it sends goes to its controller.
#[derive(Debug)]
pub struct SocketSender {
    pub webrtc_sender: WebRtcSender,
}

/// What a message of a consumer, or the end of its messages, is to its controller.
pub open spec fn sender_event(message: Option<ClientReceiverMessage>) -> SenderEvent {
    match message {
        Some(ClientReceiverMessage::Answer(sdp)) => SenderEvent::Answer(sdp@),
        Some(ClientReceiverMessage::IceCandidate(candidate)) => SenderEvent::RemoteCandidate(
            candidate@,
        ),
        Some(ClientReceiverMessage::AllIceCandidatesSent) => SenderEvent::AllRemoteCandidatesSent,
        None => SenderEvent::Close,
    }
}

impl SocketSender {
    /// Begins the session of a consumer: claims the consumer's endpoint of a
    /// relay channel from the registry and begins the controller on it.
    /// Returned are the session, the channel if the claim created it, and what
    /// the driver is asked to do first.
    pub fn new(channels: &mut Channels) -> (begun: (SocketSender, Option<Channel>, Vec<SenderAction>))
        ensures
            final(channels)@ == old(channels)@.claim(EndpointKind::Receiver),
            old(channels)@.wf() ==> final(channels)@.wf(),
            begun.0.webrtc_sender@ == WebRtcSenderView::fresh(
                old(channels)@.claimed(EndpointKind::Receiver),
            ),
            begun.1 is Some <==> !old(channels)@.partner_waits(EndpointKind::Receiver),
            begun.1 matches Some(channel) ==> channel@ == ChannelView::fresh(
                old(channels)@.claimed(EndpointKind::Receiver),
            ),
            views(begun.2@) == WebRtcSenderView::setup(),
    {
        let claim = channels.receiver();
        let (webrtc_sender, actions) = WebRtcSender::new(claim.endpoint);
        (SocketSender { webrtc_sender }, claim.created, actions)
    }

    /// One turn of the session: `message` is the consumer's next message, or
    /// `None` where there is none any more. A message goes to the controller
    /// as the event it is; the end of the messages ends the session. Returned
    /// are what the driver is asked to do, and whether the session goes on.
    pub fn run(&mut self, message: Option<ClientReceiverMessage>) -> (turn: (
        Vec<SenderAction>,
        bool,
    ))
        ensures
            final(self).webrtc_sender@ == old(self).webrtc_sender@.step(sender_event(message)),
            views(turn.0@) == old(self).webrtc_sender@.actions(sender_event(message)),
            turn.1 == message is Some,
    {
        match message {
            Some(ClientReceiverMessage::Answer(answer)) => {
                (self.webrtc_sender.on_answer(answer), true)
            },
            Some(ClientReceiverMessage::IceCandidate(candidate)) => {
                (self.webrtc_sender.on_remote_icecandidate(candidate), true)
            },
            Some(ClientReceiverMessage::AllIceCandidatesSent) => {
                (self.webrtc_sender.on_all_remote_icecandidates_sent(), true)
            },
            None => (self.webrtc_sender.close(), false),
        }
    }
}

} // verus!
