//! The controller of a consumer's session. Towards the consumer the server is
//! the offerer: it creates a data channel and a video track, offers them, and
//! moves what comes on the relay channel onto them.

use vstd::prelude::*;

use crate::action::{
    description_sent, flush, is_add_candidate, is_send_description, is_send_trickle, replay,
    replayed, sent, PeerAction, PeerActionView, PeerConnectionState, SdpKind, TrackSpec,
    TrackSpecView,
};
use crate::channel::{Channel, ChannelId, ChannelView, Received};
use crate::channel_message::ChannelMessage;
use crate::channel_receiver::ChannelReceiver;
use crate::protocol::{
    IceCandidate, IceCandidateView, ServerSenderMessage, SessionDescription, SignalView,
};
use crate::views::{lemma_views_push, views};
use crate::webrtc_api::WebRtcApi;
use crate::webrtc_utils::{
    add_remote_icecandidate, init_view, local_candidate, remote_candidate,
    send_local_icecandidate, IceCandidateInit, IceCandidateInitView,
};

verus! {

/// The label of the data channel towards a consumer.
pub const DATA_CHANNEL_LABEL: &'static str = "data";

/// The codec of the track towards a consumer.
pub const MIME_TYPE_VP8: &'static str = "video/VP8";

/// The identifier of the track towards a consumer.
pub const TRACK_ID: &'static str = "video";

/// The identifier of the stream that the track belongs to.
pub const STREAM_ID: &'static str = "webrtc-rs";

/// How far the negotiation with a consumer has come.
#[derive(Clone, Copy, Debug, PartialEq, Eq, Hash, Structural)]
pub enum SenderState {
    /// No offer was sent yet.
    Fresh,
    /// The offer is set as the local description and was sent.
    LocalOffered,
    /// The consumer's answer is set as the remote description.
    RemoteAnswered,
    /// The peer connection has reported that it is connected.
    Connected,
    /// The session is over; nothing is asked of the driver any more.
    Closed,
}

/// What the driver is asked to do for a consumer.
pub type SenderAction = PeerAction<ServerSenderMessage>;

/// A [`SenderAction`] as mathematical values.
pub type SenderActionView = PeerActionView<SignalView>;

/// What can happen to the controller of a consumer's session.
pub enum SenderEvent {
    /// The peer connection has made this offer.
    OfferCreated(Seq<char>),
    /// The peer connection has set the local description.
    LocalDescriptionSet,
    /// The consumer sent its answer.
    Answer(Seq<char>),
    /// The peer connection has set the remote description.
    RemoteDescriptionSet,
    /// The consumer sent a candidate.
    RemoteCandidate(IceCandidateView),
    /// The consumer said that it has no more candidates.
    AllRemoteCandidatesSent,
    /// The peer connection found a candidate of its own, or none any more.
    LocalCandidate(Option<IceCandidateInitView>),
    /// The peer connection reports its state.
    ConnectionState(PeerConnectionState),
    /// The session ended: the consumer went away, or the driver failed at
    /// something it was asked to do.
    Close,
}

/// The controller of a consumer's session as mathematical values.
pub struct WebRtcSenderView {
    /// The relay channel that the consumer reads from.
    pub channel_id: ChannelId,
    pub state: SenderState,
    /// The consumer's candidates that wait for the remote description, oldest first.
    pub delayed: Seq<IceCandidateView>,
    /// What waits to be sent behind the offer, oldest first.
    pub held: Seq<SignalView>,
    /// The offer that is being set as the local description.
    pub offer: Option<Seq<char>>,
}

impl WebRtcSenderView {
    /// The controller of a session that has just begun.
    pub open spec fn fresh(channel_id: ChannelId) -> WebRtcSenderView {
        WebRtcSenderView {
            channel_id,
            state: SenderState::Fresh,
            delayed: Seq::empty(),
            held: Seq::empty(),
            offer: None,
        }
    }

    /// The track towards a consumer.
    pub open spec fn track() -> TrackSpecView {
        TrackSpecView { mime_type: MIME_TYPE_VP8@, id: TRACK_ID@, stream_id: STREAM_ID@ }
    }

    /// What the driver is asked to do when the session begins: a peer
    /// connection, on it a data channel and a video track, and an offer.
    pub open spec fn setup() -> Seq<SenderActionView> {
        seq![
            PeerActionView::CreatePeerConnection(WebRtcApi::spec_default_config()),
            PeerActionView::CreateDataChannel(DATA_CHANNEL_LABEL@),
            PeerActionView::AddTrack(Self::track()),
            PeerActionView::CreateOffer,
        ]
    }

    /// What the driver is asked to do when the session ends.
    pub open spec fn teardown() -> Seq<SenderActionView> {
        seq![PeerActionView::ClosePeerConnection]
    }

    /// Whether the peer connection has a remote description.
    pub open spec fn has_remote_description(self) -> bool {
        self.state == SenderState::RemoteAnswered || self.state == SenderState::Connected
    }

    /// Whether the offer was sent.
    pub open spec fn has_offered(self) -> bool {
        self.state == SenderState::LocalOffered || self.state == SenderState::RemoteAnswered
            || self.state == SenderState::Connected
    }

    /// The controller of a session that is over.
    pub open spec fn closed(self) -> WebRtcSenderView {
        WebRtcSenderView {
            state: SenderState::Closed,
            delayed: Seq::empty(),
            held: Seq::empty(),
            offer: None,
            ..self
        }
    }

    /// What a candidate of the peer connection's own becomes on the wire.
    pub open spec fn local_message(candidate: Option<IceCandidateInitView>) -> SignalView {
        match candidate {
            Some(init) => SignalView::Candidate(local_candidate(init)),
            None => SignalView::AllCandidatesSent,
        }
    }

    /// The controller after `event`.
    pub open spec fn step(self, event: SenderEvent) -> WebRtcSenderView {
        match event {
            SenderEvent::OfferCreated(sdp) => if self.state == SenderState::Fresh {
                WebRtcSenderView { offer: Some(sdp), ..self }
            } else {
                self
            },
            SenderEvent::LocalDescriptionSet => if self.state == SenderState::Fresh
                && self.offer is Some {
                WebRtcSenderView {
                    state: SenderState::LocalOffered,
                    held: Seq::empty(),
                    offer: None,
                    ..self
                }
            } else {
                self
            },
            SenderEvent::Answer(_) => self,
            SenderEvent::RemoteDescriptionSet => if self.state == SenderState::LocalOffered {
                WebRtcSenderView {
                    state: SenderState::RemoteAnswered,
                    delayed: Seq::empty(),
                    ..self
                }
            } else {
                self
            },
            SenderEvent::RemoteCandidate(candidate) => if self.state == SenderState::Fresh
                || self.state == SenderState::LocalOffered {
                WebRtcSenderView { delayed: self.delayed.push(candidate), ..self }
            } else {
                self
            },
            SenderEvent::AllRemoteCandidatesSent => self,
            SenderEvent::LocalCandidate(candidate) => if self.state == SenderState::Fresh {
                WebRtcSenderView { held: self.held.push(Self::local_message(candidate)), ..self }
            } else {
                self
            },
            SenderEvent::ConnectionState(reported) => if reported == PeerConnectionState::Connected
                && self.state == SenderState::RemoteAnswered {
                WebRtcSenderView { state: SenderState::Connected, ..self }
            } else if reported == PeerConnectionState::Failed || reported
                == PeerConnectionState::Closed {
                self.closed()
            } else {
                self
            },
            SenderEvent::Close => self.closed(),
        }
    }

    /// What the driver is asked to do upon `event`, in order.
    pub open spec fn actions(self, event: SenderEvent) -> Seq<SenderActionView> {
        if self.state == SenderState::Closed {
            Seq::empty()
        } else {
            match event {
                SenderEvent::OfferCreated(sdp) => if self.state == SenderState::Fresh {
                    seq![PeerActionView::SetLocalDescription(SdpKind::Offer, sdp)]
                } else {
                    Seq::empty()
                },
                SenderEvent::LocalDescriptionSet => if self.state == SenderState::Fresh
                    && self.offer is Some {
                    seq![PeerActionView::Send(SignalView::Description(self.offer->0))] + sent(
                        self.held,
                    ) + seq![PeerActionView::StartRelay]
                } else {
                    Seq::empty()
                },
                SenderEvent::Answer(sdp) => seq![
                    PeerActionView::SetRemoteDescription(SdpKind::Answer, sdp),
                ],
                SenderEvent::RemoteDescriptionSet => if self.state == SenderState::LocalOffered {
                    replayed(self.delayed)
                } else {
                    Seq::empty()
                },
                SenderEvent::RemoteCandidate(candidate) => if self.has_remote_description() {
                    seq![PeerActionView::AddIceCandidate(remote_candidate(candidate))]
                } else {
                    Seq::empty()
                },
                SenderEvent::AllRemoteCandidatesSent => Seq::empty(),
                SenderEvent::LocalCandidate(candidate) => if self.has_offered() {
                    seq![PeerActionView::Send(Self::local_message(candidate))]
                } else {
                    Seq::empty()
                },
                SenderEvent::ConnectionState(reported) => if reported == PeerConnectionState::Failed
                    || reported == PeerConnectionState::Closed {
                    Self::teardown()
                } else {
                    Seq::empty()
                },
                SenderEvent::Close => Self::teardown(),
            }
        }
    }

    /// The controller after the events of `events`, in order.
    pub open spec fn run(self, events: Seq<SenderEvent>) -> WebRtcSenderView
        decreases events.len(),
    {
        if events.len() == 0 {
            self
        } else {
            self.run(events.drop_last()).step(events.last())
        }
    }

    /// All that the driver is asked to do upon the events of `events`, in order.
    pub open spec fn trace(self, events: Seq<SenderEvent>) -> Seq<SenderActionView>
        decreases events.len(),
    {
        if events.len() == 0 {
            Seq::empty()
        } else {
            self.trace(events.drop_last()) + self.run(events.drop_last()).actions(events.last())
        }
    }
}

/// The controller of a consumer's session.
#[derive(Debug)]
pub struct WebRtcSender {
    channel_receiver: ChannelReceiver,
    state: SenderState,
    delayed_icecandidates: Vec<IceCandidate>,
    held_messages: Vec<ServerSenderMessage>,
    offer: Option<SessionDescription>,
}

impl View for WebRtcSender {
    type V = WebRtcSenderView;

    closed spec fn view(&self) -> WebRtcSenderView {
        WebRtcSenderView {
            channel_id: self.channel_receiver.channel_id(),
            state: self.state,
            delayed: views(self.delayed_icecandidates@),
            held: views(self.held_messages@),
            offer: match self.offer {
                Some(sdp) => Some(sdp@),
                None => None,
            },
        }
    }
}

impl WebRtcSender {
    /// Begins the session of a consumer that reads from the channel of
    /// `channel_receiver`. The driver is asked, in this order: for a peer
    /// connection, for a data channel labelled `data` on it, for a VP8 track
    /// `video` of the stream `webrtc-rs` on it, and for an offer.
    pub fn new(channel_receiver: ChannelReceiver) -> (begun: (WebRtcSender, Vec<SenderAction>))
        ensures
            begun.0@ == WebRtcSenderView::fresh(channel_receiver.channel_id()),
            views(begun.1@) == WebRtcSenderView::setup(),
    {
        let sender = WebRtcSender {
            channel_receiver,
            state: SenderState::Fresh,
            delayed_icecandidates: Vec::new(),
            held_messages: Vec::new(),
            offer: None,
        };
        let mut actions: Vec<SenderAction> = Vec::new();
        actions.push(PeerAction::CreatePeerConnection(WebRtcApi::default_config()));
        actions.push(PeerAction::CreateDataChannel(DATA_CHANNEL_LABEL.to_owned()));
        actions.push(
            PeerAction::AddTrack(
                TrackSpec {
                    mime_type: MIME_TYPE_VP8.to_owned(),
                    id: TRACK_ID.to_owned(),
                    stream_id: STREAM_ID.to_owned(),
                },
            ),
        );
        actions.push(PeerAction::CreateOffer);
        assert(views(sender.delayed_icecandidates@) =~= Seq::empty());
        assert(views(sender.held_messages@) =~= Seq::empty());
        assert(views(actions@) =~= WebRtcSenderView::setup());
        (sender, actions)
    }

    /// The relay channel that the consumer reads from.
    pub fn channel_id(&self) -> (id: ChannelId)
        ensures
            id == self@.channel_id,
    {
        self.channel_receiver.channel_id()
    }

    /// How far the negotiation has come.
    pub fn state(&self) -> (state: SenderState)
        ensures
            state == self@.state,
    {
        self.state
    }

    fn has_remote_description(&self) -> (b: bool)
        ensures
            b == self@.has_remote_description(),
    {
        match self.state {
            SenderState::RemoteAnswered | SenderState::Connected => true,
            _ => false,
        }
    }

    fn is_closed(&self) -> (b: bool)
        ensures
            b == (self@.state == SenderState::Closed),
    {
        match self.state {
            SenderState::Closed => true,
            _ => false,
        }
    }

    /// The offer is made: it is to be set as the local description.
    pub fn on_offer_created(&mut self, sdp: SessionDescription) -> (actions: Vec<SenderAction>)
        ensures
            final(self)@ == old(self)@.step(SenderEvent::OfferCreated(sdp@)),
            views(actions@) == old(self)@.actions(SenderEvent::OfferCreated(sdp@)),
    {
        let mut actions: Vec<SenderAction> = Vec::new();
        match self.state {
            SenderState::Fresh => {
                let copy = SessionDescription(sdp.0.clone());
                self.offer = Some(sdp);
                actions.push(PeerAction::SetLocalDescription(SdpKind::Offer, copy));
            },
            _ => {},
        }
        assert(views(actions@) =~= old(self)@.actions(SenderEvent::OfferCreated(sdp@)));
        actions
    }

    /// The local description is set: the offer is sent, behind it what was
    /// held back for it, and the relay towards the consumer is to start.
    pub fn on_local_description_set(&mut self) -> (actions: Vec<SenderAction>)
        ensures
            final(self)@ == old(self)@.step(SenderEvent::LocalDescriptionSet),
            views(actions@) == old(self)@.actions(SenderEvent::LocalDescriptionSet),
    {
        let mut actions: Vec<SenderAction> = Vec::new();
        match self.state {
            SenderState::Fresh => {
                match self.offer.take() {
                    Some(sdp) => {
                        actions.push(PeerAction::Send(ServerSenderMessage::Offer(sdp)));
                        assert(views(actions@) =~= seq![
                            PeerActionView::Send(SignalView::Description(sdp@)),
                        ]);
                        flush(&mut self.held_messages, &mut actions);
                        proof {
                            lemma_views_push(actions@, PeerAction::<ServerSenderMessage>::StartRelay);
                        }
                        actions.push(PeerAction::StartRelay);
                        self.state = SenderState::LocalOffered;
                        assert(views(self.held_messages@) =~= Seq::empty());
                    },
                    None => {},
                }
            },
            _ => {},
        }
        assert(views(actions@) =~= old(self)@.actions(SenderEvent::LocalDescriptionSet));
        actions
    }

    /// The consumer's answer has come: it is to be set as the remote description.
    pub fn on_answer(&mut self, sdp: SessionDescription) -> (actions: Vec<SenderAction>)
        ensures
            final(self)@ == old(self)@.step(SenderEvent::Answer(sdp@)),
            views(actions@) == old(self)@.actions(SenderEvent::Answer(sdp@)),
    {
        let mut actions: Vec<SenderAction> = Vec::new();
        if !self.is_closed() {
            actions.push(PeerAction::SetRemoteDescription(SdpKind::Answer, sdp));
        }
        assert(views(actions@) =~= old(self)@.actions(SenderEvent::Answer(sdp@)));
        actions
    }

    /// The remote description is set: the consumer's candidates that came
    /// before it go to the peer connection, oldest first, and from now on
    /// candidates go there as they come.
    pub fn on_remote_description_set(&mut self) -> (actions: Vec<SenderAction>)
        ensures
            final(self)@ == old(self)@.step(SenderEvent::RemoteDescriptionSet),
            views(actions@) == old(self)@.actions(SenderEvent::RemoteDescriptionSet),
    {
        let mut actions: Vec<SenderAction> = Vec::new();
        match self.state {
            SenderState::LocalOffered => {
                assert(views(actions@) =~= Seq::empty());
                replay(&mut self.delayed_icecandidates, &mut actions);
                self.state = SenderState::RemoteAnswered;
                assert(views(self.delayed_icecandidates@) =~= Seq::empty());
            },
            _ => {},
        }
        assert(views(actions@) =~= old(self)@.actions(SenderEvent::RemoteDescriptionSet));
        actions
    }

    /// A candidate of the consumer has come. With the remote description set
    /// it goes to the peer connection; before that it waits behind those that
    /// came earlier.
    pub fn on_remote_icecandidate(&mut self, ice_candidate: IceCandidate) -> (actions: Vec<
        SenderAction,
    >)
        ensures
            final(self)@ == old(self)@.step(SenderEvent::RemoteCandidate(ice_candidate@)),
            views(actions@) == old(self)@.actions(SenderEvent::RemoteCandidate(ice_candidate@)),
    {
        let mut actions: Vec<SenderAction> = Vec::new();
        if !self.is_closed() {
            let has_remote_description = self.has_remote_description();
            match add_remote_icecandidate(
                has_remote_description,
                ice_candidate,
                &mut self.delayed_icecandidates,
            ) {
                Some(init) => {
                    actions.push(PeerAction::AddIceCandidate(init));
                },
                None => {},
            }
        }
        assert(views(actions@) =~= old(self)@.actions(
            SenderEvent::RemoteCandidate(ice_candidate@),
        ));
        actions
    }

    /// The consumer has no more candidates. Nothing follows from it: the peer
    /// connection goes on to take candidates until it finds for itself that
    /// there are no more.
    pub fn on_all_remote_icecandidates_sent(&mut self) -> (actions: Vec<SenderAction>)
        ensures
            final(self)@ == old(self)@.step(SenderEvent::AllRemoteCandidatesSent),
            views(actions@) == old(self)@.actions(SenderEvent::AllRemoteCandidatesSent),
    {
        let actions: Vec<SenderAction> = Vec::new();
        assert(views(actions@) =~= old(self)@.actions(SenderEvent::AllRemoteCandidatesSent));
        actions
    }

    /// The peer connection has found a candidate of its own, or (`None`) no
    /// more of them. The consumer is told, but not before it was sent the
    /// offer: until then the message is held back.
    pub fn on_local_icecandidate(&mut self, ice_candidate: Option<IceCandidateInit>) -> (actions:
        Vec<SenderAction>)
        ensures
            final(self)@ == old(self)@.step(SenderEvent::LocalCandidate(init_view(ice_candidate))),
            views(actions@) == old(self)@.actions(
                SenderEvent::LocalCandidate(init_view(ice_candidate)),
            ),
    {
        let ghost event = SenderEvent::LocalCandidate(init_view(ice_candidate));
        let mut actions: Vec<SenderAction> = Vec::new();
        match self.state {
            SenderState::Closed => {},
            SenderState::Fresh => {
                let message = match send_local_icecandidate(ice_candidate) {
                    Some(candidate) => ServerSenderMessage::IceCandidate(candidate),
                    None => ServerSenderMessage::AllIceCandidatesSent,
                };
                proof {
                    lemma_views_push(self.held_messages@, message);
                }
                self.held_messages.push(message);
            },
            SenderState::LocalOffered | SenderState::RemoteAnswered | SenderState::Connected => {
                let message = match send_local_icecandidate(ice_candidate) {
                    Some(candidate) => ServerSenderMessage::IceCandidate(candidate),
                    None => ServerSenderMessage::AllIceCandidatesSent,
                };
                actions.push(PeerAction::Send(message));
            },
        }
        assert(views(actions@) =~= old(self)@.actions(event));
        actions
    }

    /// The peer connection reports its state. Once the answer is set,
    /// `Connected` completes the negotiation; `Failed` and `Closed` end the
    /// session.
    pub fn on_peer_connection_state_change(&mut self, state: PeerConnectionState) -> (actions: Vec<
        SenderAction,
    >)
        ensures
            final(self)@ == old(self)@.step(SenderEvent::ConnectionState(state)),
            views(actions@) == old(self)@.actions(SenderEvent::ConnectionState(state)),
    {
        let mut actions: Vec<SenderAction> = Vec::new();
        match state {
            PeerConnectionState::Connected => {
                match self.state {
                    SenderState::RemoteAnswered => {
                        self.state = SenderState::Connected;
                    },
                    _ => {},
                }
            },
            PeerConnectionState::Failed | PeerConnectionState::Closed => {
                actions = self.shut();
            },
            _ => {},
        }
        assert(views(actions@) =~= old(self)@.actions(SenderEvent::ConnectionState(state)));
        actions
    }

    /// Ends the session: the consumer went away, or the driver failed at
    /// something it was asked to do. What waited is forgotten. The driver is
    /// asked to close the peer connection, and after that nothing any more.
    /// The relay channel is left as it is.
    pub fn close(&mut self) -> (actions: Vec<SenderAction>)
        ensures
            final(self)@ == old(self)@.step(SenderEvent::Close),
            views(actions@) == old(self)@.actions(SenderEvent::Close),
    {
        self.shut()
    }

    fn shut(&mut self) -> (actions: Vec<SenderAction>)
        ensures
            final(self)@ == old(self)@.closed(),
            views(actions@) == if old(self)@.state == SenderState::Closed {
                Seq::empty()
            } else {
                WebRtcSenderView::teardown()
            },
    {
        let mut actions: Vec<SenderAction> = Vec::new();
        if !self.is_closed() {
            actions.push(PeerAction::ClosePeerConnection);
        }
        self.state = SenderState::Closed;
        self.delayed_icecandidates.clear();
        self.held_messages.clear();
        self.offer = None;
        assert(views(self.delayed_icecandidates@) =~= Seq::empty());
        assert(views(self.held_messages@) =~= Seq::empty());
        assert(views(actions@) =~= if old(self)@.state == SenderState::Closed {
            Seq::empty()
        } else {
            WebRtcSenderView::teardown()
        });
        actions
    }
}

/// What the data channel towards a consumer reports of itself.
#[derive(Clone, Copy, Debug, PartialEq, Eq, Hash, Structural)]
pub enum DataChannelState {
    Unspecified,
    Connecting,
    Open,
    Closing,
    Closed,
}

/// What the relay towards a consumer does next.
#[derive(Clone, Debug, PartialEq, Eq, Hash)]
pub enum PumpAction {
    /// Send these bytes on the data channel, and go on.
    SendData(Vec<u8>),
    /// Unmarshal these bytes as an RTP packet, report the result to
    /// [`WebRtcSender::on_unmarshal`], and go on.
    WriteMedia(Vec<u8>),
    /// A frame was dropped: go on.
    Skip,
    /// No frame is there: wait for one, then go on.
    Wait,
    /// No frame will come any more: stop. The peer connection stays as it is.
    Stop,
}

/// What becomes of a media frame once its bytes were unmarshalled.
#[derive(Clone, Debug, PartialEq, Eq, Hash)]
pub enum MediaAction<P> {
    /// Write the packet to the track.
    Write(P),
    /// The bytes are no RTP packet: the frame is dropped.
    Skip,
}

/// What the relay does with what the channel gave, while the data channel is
/// in `state`. A data frame is sent if the data channel is open and dropped if
/// it is not; a media frame goes to the track whatever the data channel does.
pub open spec fn pumped(received: Received, state: DataChannelState) -> PumpAction {
    match received {
        Received::Frame(ChannelMessage::Data(data)) => if state == DataChannelState::Open {
            PumpAction::SendData(data)
        } else {
            PumpAction::Skip
        },
        Received::Frame(ChannelMessage::Media(packet)) => PumpAction::WriteMedia(packet),
        Received::Pending => PumpAction::Wait,
        Received::EndOfStream => PumpAction::Stop,
        Received::Foreign => PumpAction::Stop,
    }
}

impl WebRtcSender {
    /// One turn of the relay towards the consumer: asks `channel` for its
    /// oldest frame and says what to do with it.
    pub fn relay(&self, channel: &mut Channel, state: DataChannelState) -> (action: PumpAction)
        ensures
            self@.channel_id != old(channel)@.channel_id ==> action == PumpAction::Stop
                && final(channel)@ == old(channel)@,
            self@.channel_id == old(channel)@.channel_id ==> action == pumped(
                old(channel)@.received(),
                state,
            ) && final(channel)@ == old(channel)@.recv(),
    {
        match self.channel_receiver.recv(channel) {
            Received::Frame(ChannelMessage::Data(data)) => {
                match state {
                    DataChannelState::Open => PumpAction::SendData(data),
                    _ => PumpAction::Skip,
                }
            },
            Received::Frame(ChannelMessage::Media(packet)) => PumpAction::WriteMedia(packet),
            Received::Pending => PumpAction::Wait,
            Received::EndOfStream => PumpAction::Stop,
            Received::Foreign => PumpAction::Stop,
        }
    }

    /// The bytes of a media frame were unmarshalled, into `packet` if they are
    /// an RTP packet. A packet is written to the track. Bytes that are none
    /// cost the relay this one frame only.
    pub fn on_unmarshal<P>(packet: Option<P>) -> (action: MediaAction<P>)
        ensures
            action == match packet {
                Some(p) => MediaAction::Write(p),
                None => MediaAction::Skip,
            },
    {
        match packet {
            Some(p) => MediaAction::Write(p),
            None => MediaAction::Skip,
        }
    }
}

/// What the relay does in `n` turns on a channel, in order, while the data
/// channel stays in `state`.
pub open spec fn pump_trace(view: ChannelView, n: nat, state: DataChannelState) -> Seq<PumpAction> {
    view.received_in(n).map_values(|received: Received| pumped(received, state))
}

/// What the relay does with each frame of `messages`, in order.
pub open spec fn pumped_frames(messages: Seq<ChannelMessage>, state: DataChannelState) -> Seq<
    PumpAction,
> {
    messages.map_values(|message: ChannelMessage| pumped(Received::Frame(message), state))
}

/// What a producer offers to a channel that admits frames reaches the consumer's side
/// frame for frame, in the order offered and with the bytes offered: the relay
/// turns the frames in flight and then the frames offered, one per turn, into
/// what is to be done with each.
pub proof fn law_relay_pumps_in_order(
    view: ChannelView,
    messages: Seq<ChannelMessage>,
    state: DataChannelState,
)
    requires
        view.admits(),
    ensures
        pump_trace(view.send_all(messages), view.queue.len() + messages.len(), state)
            == pumped_frames(view.queue + messages, state),
{
    crate::channel::law_relay_in_order(view, messages);
    assert(pump_trace(view.send_all(messages), view.queue.len() + messages.len(), state)
        =~= pumped_frames(view.queue + messages, state));
}

/// A media frame goes to the track with its bytes unchanged, whatever the
/// data channel does; a data frame goes to an open data channel with its bytes
/// unchanged, and nowhere else.
pub proof fn law_payload_verbatim(payload: Vec<u8>, state: DataChannelState)
    ensures
        pumped(Received::Frame(ChannelMessage::Media(payload)), state) == PumpAction::WriteMedia(
            payload,
        ),
        pumped(Received::Frame(ChannelMessage::Data(payload)), DataChannelState::Open)
            == PumpAction::SendData(payload),
        state != DataChannelState::Open ==> pumped(
            Received::Frame(ChannelMessage::Data(payload)),
            state,
        ) == PumpAction::Skip,
{
}

/// When the producer is gone the relay towards the consumer still delivers
/// every frame in flight, in order, and then stops. It asks nothing else: the
/// consumer's session and its peer connection stay as they are.
pub proof fn law_relay_stops_after_producer(view: ChannelView, state: DataChannelState)
    ensures
        pump_trace(view.close(), view.queue.len() + 1, state) == pumped_frames(
            view.queue,
            state,
        ).push(PumpAction::Stop),
{
    let closed = view.close();
    let n = view.queue.len();
    crate::channel::law_recv_in_order(closed, n);
    crate::channel::law_end_of_stream(closed);
    lemma_received_in_push(closed, n);
    assert(closed.queue.take(n as int) =~= view.queue);
    assert(pump_trace(closed, n + 1, state) =~= pumped_frames(view.queue, state).push(
        PumpAction::Stop,
    ));
}

proof fn lemma_received_in_push(view: ChannelView, n: nat)
    ensures
        view.received_in(n + 1) == view.received_in(n).push(view.recv_times(n).received()),
    decreases n,
{
    if n == 0 {
        assert(view.received_in(1) =~= seq![view.received()] + view.recv().received_in(0));
        assert(view.received_in(1) =~= view.received_in(0).push(view.received()));
    } else {
        lemma_received_in_push(view.recv(), (n - 1) as nat);
        assert(view.received_in(n + 1) =~= seq![view.received()] + view.recv().received_in(n));
        assert(view.received_in(n + 1) =~= view.received_in(n).push(
            view.recv_times(n).received(),
        ));
    }
}

/// Whether the remote description was reported set among the first `upto` of `events`.
pub open spec fn remote_description_reported(events: Seq<SenderEvent>, upto: int) -> bool {
    exists|j: int| 0 <= j < upto && j < events.len() && #[trigger] events[j] is RemoteDescriptionSet
}

proof fn lemma_run_push(view: WebRtcSenderView, events: Seq<SenderEvent>, event: SenderEvent)
    ensures
        view.run(events.push(event)) == view.run(events).step(event),
        view.trace(events.push(event)) == view.trace(events) + view.run(events).actions(event),
{
    assert(events.push(event).drop_last() =~= events);
}

proof fn lemma_remote_description_reported(channel_id: ChannelId, events: Seq<SenderEvent>)
    ensures
        WebRtcSenderView::fresh(channel_id).run(events).has_remote_description()
            ==> remote_description_reported(events, events.len() as int),
    decreases events.len(),
{
    if events.len() > 0 {
        let before = events.drop_last();
        lemma_remote_description_reported(channel_id, before);
        let fresh = WebRtcSenderView::fresh(channel_id);
        if fresh.run(events).has_remote_description() {
            if fresh.run(before).has_remote_description() {
                let j = choose|j: int|
                    0 <= j < before.len() && #[trigger] before[j] is RemoteDescriptionSet;
                assert(events[j] is RemoteDescriptionSet);
            } else {
                assert(events[events.len() - 1] is RemoteDescriptionSet);
            }
        }
    }
}

/// No candidate reaches the peer connection before the remote description is
/// set: whatever happens to a controller from its beginning on, an action that
/// hands over a candidate is asked for only upon or after the driver's report
/// that the remote description is set.
pub proof fn law_no_candidate_before_remote_description(
    channel_id: ChannelId,
    events: Seq<SenderEvent>,
    k: int,
    i: int,
)
    requires
        0 <= k < events.len(),
        0 <= i < WebRtcSenderView::fresh(channel_id).run(events.take(k)).actions(events[k]).len(),
        is_add_candidate(
            WebRtcSenderView::fresh(channel_id).run(events.take(k)).actions(events[k])[i],
        ),
    ensures
        remote_description_reported(events, k + 1),
{
    let before = events.take(k);
    let state = WebRtcSenderView::fresh(channel_id).run(before);
    lemma_remote_description_reported(channel_id, before);
    if state.has_remote_description() {
        let j = choose|j: int|
            0 <= j < before.len() && #[trigger] before[j] is RemoteDescriptionSet;
        assert(events[j] is RemoteDescriptionSet);
    } else {
        assert(events[k] is RemoteDescriptionSet);
    }
}

proof fn lemma_candidates_wait(view: WebRtcSenderView, candidates: Seq<IceCandidateView>)
    requires
        view.state == SenderState::LocalOffered,
    ensures
        view.run(candidates.map_values(|c: IceCandidateView| SenderEvent::RemoteCandidate(c)))
            == (WebRtcSenderView { delayed: view.delayed + candidates, ..view }),
        view.trace(candidates.map_values(|c: IceCandidateView| SenderEvent::RemoteCandidate(c)))
            == Seq::<SenderActionView>::empty(),
    decreases candidates.len(),
{
    let wrap = |c: IceCandidateView| SenderEvent::RemoteCandidate(c);
    if candidates.len() == 0 {
        assert(view.delayed + candidates =~= view.delayed);
    } else {
        lemma_candidates_wait(view, candidates.drop_last());
        assert(candidates.map_values(wrap).drop_last() =~= candidates.drop_last().map_values(wrap));
        assert((view.delayed + candidates.drop_last()).push(candidates.last()) =~= view.delayed
            + candidates);
    }
}

proof fn lemma_run_append(view: WebRtcSenderView, first: Seq<SenderEvent>, then: Seq<SenderEvent>)
    ensures
        view.run(first + then) == view.run(first).run(then),
        view.trace(first + then) == view.trace(first) + view.run(first).trace(then),
    decreases then.len(),
{
    if then.len() == 0 {
        assert(first + then =~= first);
        assert(view.trace(first) + Seq::<SenderActionView>::empty() =~= view.trace(first));
    } else {
        lemma_run_append(view, first, then.drop_last());
        assert((first + then).drop_last() =~= first + then.drop_last());
        assert(view.trace(first + then) =~= view.trace(first) + view.run(first).trace(then));
    }
}

/// Candidates that come before the answer are not lost and not reordered.
/// When the peer connection makes `offer` and sets it, the consumer then sends
/// `candidates` and after them its answer, and the peer connection sets the
/// answer, then the driver is asked, in this order: to set the offer as the
/// local description, to send it, to start the relay, to set the answer as the
/// remote description, and to hand over each of `candidates`, oldest first.
/// After that nothing waits.
pub proof fn law_early_candidates_replayed_in_order(
    channel_id: ChannelId,
    candidates: Seq<IceCandidateView>,
    offer: Seq<char>,
    answer: Seq<char>,
)
    ensures
        WebRtcSenderView::fresh(channel_id).trace(
            seq![SenderEvent::OfferCreated(offer), SenderEvent::LocalDescriptionSet]
                + candidates.map_values(|c: IceCandidateView| SenderEvent::RemoteCandidate(c))
                + seq![SenderEvent::Answer(answer), SenderEvent::RemoteDescriptionSet],
        ) == seq![
            PeerActionView::SetLocalDescription(SdpKind::Offer, offer),
            PeerActionView::Send(SignalView::Description(offer)),
            PeerActionView::StartRelay,
            PeerActionView::SetRemoteDescription(SdpKind::Answer, answer),
        ] + replayed::<SignalView>(candidates),
        WebRtcSenderView::fresh(channel_id).run(
            seq![SenderEvent::OfferCreated(offer), SenderEvent::LocalDescriptionSet]
                + candidates.map_values(|c: IceCandidateView| SenderEvent::RemoteCandidate(c))
                + seq![SenderEvent::Answer(answer), SenderEvent::RemoteDescriptionSet],
        ) == (WebRtcSenderView {
            state: SenderState::RemoteAnswered,
            ..WebRtcSenderView::fresh(channel_id)
        }),
{
    let fresh = WebRtcSenderView::fresh(channel_id);
    let early = candidates.map_values(|c: IceCandidateView| SenderEvent::RemoteCandidate(c));
    let e1 = SenderEvent::OfferCreated(offer);
    let e2 = SenderEvent::LocalDescriptionSet;
    let e3 = SenderEvent::Answer(answer);
    let e4 = SenderEvent::RemoteDescriptionSet;
    let none = Seq::<SenderEvent>::empty();
    lemma_run_push(fresh, none, e1);
    lemma_run_push(fresh, none.push(e1), e2);
    assert(none.push(e1).push(e2) =~= seq![e1, e2]);
    assert(sent::<SignalView>(Seq::empty()) =~= Seq::empty());
    let offered = fresh.run(seq![e1, e2]);
    assert(offered == WebRtcSenderView { state: SenderState::LocalOffered, ..fresh });
    lemma_candidates_wait(offered, candidates);
    lemma_run_append(fresh, seq![e1, e2], early);
    let waiting = fresh.run(seq![e1, e2] + early);
    assert(offered.delayed + candidates =~= candidates);
    lemma_run_push(fresh, seq![e1, e2] + early, e3);
    lemma_run_push(fresh, (seq![e1, e2] + early).push(e3), e4);
    assert((seq![e1, e2] + early).push(e3).push(e4) =~= seq![e1, e2] + early + seq![e3, e4]);
    let all = seq![e1, e2] + early + seq![e3, e4];
    assert(fresh.trace(all) =~= seq![
        PeerActionView::SetLocalDescription(SdpKind::Offer, offer),
        PeerActionView::Send(SignalView::Description(offer)),
        PeerActionView::StartRelay,
        PeerActionView::SetRemoteDescription(SdpKind::Answer, answer),
    ] + replayed::<SignalView>(candidates));
}

proof fn lemma_offer_first(channel_id: ChannelId, events: Seq<SenderEvent>)
    ensures
        WebRtcSenderView::fresh(channel_id).run(events).has_offered() ==> description_sent(
            WebRtcSenderView::fresh(channel_id).trace(events),
            WebRtcSenderView::fresh(channel_id).trace(events).len() as int,
        ),
        forall|q: int|
            0 <= q < WebRtcSenderView::fresh(channel_id).trace(events).len() && is_send_trickle(
                #[trigger] WebRtcSenderView::fresh(channel_id).trace(events)[q],
            ) ==> description_sent(WebRtcSenderView::fresh(channel_id).trace(events), q),
    decreases events.len(),
{
    let fresh = WebRtcSenderView::fresh(channel_id);
    if events.len() > 0 {
        let before = events.drop_last();
        let event = events.last();
        lemma_offer_first(channel_id, before);
        let state = fresh.run(before);
        let old_trace = fresh.trace(before);
        let added = state.actions(event);
        let trace = fresh.trace(events);
        assert(trace == old_trace + added);
        let n = old_trace.len() as int;
        assert forall|upto: int| description_sent(old_trace, upto) implies description_sent(
            trace,
            upto,
        ) by {
            let p = choose|p: int|
                0 <= p < upto && p < old_trace.len() && is_send_description(
                    #[trigger] old_trace[p],
                );
            assert(trace[p] == old_trace[p]);
        }
        let offers = event is LocalDescriptionSet && state.state == SenderState::Fresh
            && state.offer is Some;
        if offers {
            assert(added[0] == PeerActionView::<SignalView>::Send(
                SignalView::Description(state.offer->0),
            ));
            assert(trace[n] == added[0]);
            assert(is_send_description(trace[n]));
        }
        assert forall|q: int| 0 <= q < trace.len() && is_send_trickle(#[trigger] trace[q])
            implies description_sent(trace, q) by {
            if q < n {
                assert(trace[q] == old_trace[q]);
            } else {
                assert(trace[q] == added[q - n]);
                if offers {
                    assert(q != n);
                    assert(is_send_description(trace[n]));
                } else {
                    assert(state.has_offered());
                    assert(description_sent(old_trace, n));
                    let p = choose|p: int|
                        0 <= p < n && p < old_trace.len() && is_send_description(
                            #[trigger] old_trace[p],
                        );
                    assert(trace[p] == old_trace[p]);
                }
            }
        }
        if fresh.run(events).has_offered() {
            if offers {
                assert(is_send_description(trace[n]));
            } else {
                assert(state.has_offered());
                assert(description_sent(trace, n));
                let p = choose|p: int|
                    0 <= p < n && p < trace.len() && is_send_description(#[trigger] trace[p]);
                assert(is_send_description(trace[p]));
            }
        }
    }
}

/// The offer goes first: whatever happens to a controller from its beginning
/// on, the consumer is told of no candidate of the server, nor of their end,
/// before it was sent an offer.
pub proof fn law_offer_before_candidates(channel_id: ChannelId, events: Seq<SenderEvent>, q: int)
    requires
        0 <= q < WebRtcSenderView::fresh(channel_id).trace(events).len(),
        is_send_trickle(WebRtcSenderView::fresh(channel_id).trace(events)[q]),
    ensures
        description_sent(WebRtcSenderView::fresh(channel_id).trace(events), q),
{
    lemma_offer_first(channel_id, events);
}

/// How far a state is along the course of a session.
pub open spec fn sender_progress(state: SenderState) -> nat {
    match state {
        SenderState::Fresh => 0,
        SenderState::LocalOffered => 1,
        SenderState::RemoteAnswered => 2,
        SenderState::Connected => 3,
        SenderState::Closed => 4,
    }
}

/// A session only moves forward: from fresh to offered, to answered, to
/// connected, to closed, one step at a time unless it is closed early.
pub proof fn law_states_advance(view: WebRtcSenderView, event: SenderEvent)
    ensures
        sender_progress(view.state) <= sender_progress(view.step(event).state),
        view.step(event).state != SenderState::Closed ==> sender_progress(view.step(event).state)
            <= sender_progress(view.state) + 1,
        view.step(event).channel_id == view.channel_id,
{
}

/// The candidates of the consumer among `events`, in order.
pub open spec fn remote_candidates(events: Seq<SenderEvent>) -> Seq<IceCandidateView>
    decreases events.len(),
{
    if events.len() == 0 {
        Seq::empty()
    } else {
        match events.last() {
            SenderEvent::RemoteCandidate(candidate) => remote_candidates(events.drop_last()).push(
                candidate,
            ),
            _ => remote_candidates(events.drop_last()),
        }
    }
}

/// While no remote description is set, every candidate that the consumer has
/// sent waits, in the order sent, and none was handed over.
pub proof fn law_early_candidates_wait_in_order(channel_id: ChannelId, events: Seq<SenderEvent>)
    requires
        sender_progress(WebRtcSenderView::fresh(channel_id).run(events).state) <= 1,
    ensures
        WebRtcSenderView::fresh(channel_id).run(events).delayed == remote_candidates(events),
        forall|q: int|
            0 <= q < WebRtcSenderView::fresh(channel_id).trace(events).len() ==> !is_add_candidate(
                #[trigger] WebRtcSenderView::fresh(channel_id).trace(events)[q],
            ),
    decreases events.len(),
{
    let fresh = WebRtcSenderView::fresh(channel_id);
    if events.len() > 0 {
        let before = events.drop_last();
        law_states_advance(fresh.run(before), events.last());
        law_early_candidates_wait_in_order(channel_id, before);
        let old_trace = fresh.trace(before);
        let added = fresh.run(before).actions(events.last());
        let trace = fresh.trace(events);
        assert forall|q: int| 0 <= q < trace.len() implies !is_add_candidate(
            #[trigger] trace[q],
        ) by {
            if q < old_trace.len() {
                assert(trace[q] == old_trace[q]);
            } else {
                assert(trace[q] == added[q - old_trace.len()]);
            }
        }
    }
}

/// Once the remote description is set no candidate waits any more, and once
/// the offer is sent nothing is held back any more.
pub proof fn law_nothing_waits_after_answer(channel_id: ChannelId, events: Seq<SenderEvent>)
    ensures
        sender_progress(WebRtcSenderView::fresh(channel_id).run(events).state) >= 2
            ==> WebRtcSenderView::fresh(channel_id).run(events).delayed.len() == 0,
        sender_progress(WebRtcSenderView::fresh(channel_id).run(events).state) >= 1
            ==> WebRtcSenderView::fresh(channel_id).run(events).held.len() == 0,
    decreases events.len(),
{
    if events.len() > 0 {
        law_nothing_waits_after_answer(channel_id, events.drop_last());
        law_states_advance(WebRtcSenderView::fresh(channel_id).run(events.drop_last()), events.last());
    }
}

/// What a producer sends on its track reaches the consumer's track: media
/// frames offered to a channel that admits frames and holds none come out as
/// packets to write, one for one, in the order offered, with the bytes
/// offered, whatever the data channel does.
pub proof fn law_media_reaches_the_track(
    view: ChannelView,
    packets: Seq<Vec<u8>>,
    state: DataChannelState,
)
    requires
        view.admits(),
        view.queue.len() == 0,
    ensures
        pump_trace(
            view.send_all(packets.map_values(|p: Vec<u8>| ChannelMessage::Media(p))),
            packets.len(),
            state,
        ) == packets.map_values(|p: Vec<u8>| PumpAction::WriteMedia(p)),
{
    let frames = packets.map_values(|p: Vec<u8>| ChannelMessage::Media(p));
    law_relay_pumps_in_order(view, frames, state);
    assert(view.queue + frames =~= frames);
    assert(pumped_frames(frames, state) =~= packets.map_values(
        |p: Vec<u8>| PumpAction::WriteMedia(p),
    ));
}

/// What a producer sends on its data channel reaches the consumer's data
/// channel: data frames offered to a channel that admits frames and holds
/// none come out, while the consumer's data channel is open, as payloads to
/// send, one for one, in the order offered, byte for byte.
pub proof fn law_data_reaches_the_data_channel(view: ChannelView, payloads: Seq<Vec<u8>>)
    requires
        view.admits(),
        view.queue.len() == 0,
    ensures
        pump_trace(
            view.send_all(payloads.map_values(|p: Vec<u8>| ChannelMessage::Data(p))),
            payloads.len(),
            DataChannelState::Open,
        ) == payloads.map_values(|p: Vec<u8>| PumpAction::SendData(p)),
{
    let frames = payloads.map_values(|p: Vec<u8>| ChannelMessage::Data(p));
    law_relay_pumps_in_order(view, frames, DataChannelState::Open);
    assert(view.queue + frames =~= frames);
    assert(pumped_frames(frames, DataChannelState::Open) =~= payloads.map_values(
        |p: Vec<u8>| PumpAction::SendData(p),
    ));
}

/// A session that is over asks nothing of the driver, whatever happens.
pub proof fn law_closed_is_silent(view: WebRtcSenderView, event: SenderEvent)
    requires
        view.state == SenderState::Closed,
    ensures
        view.actions(event) == Seq::<SenderActionView>::empty(),
        view.step(event).state == SenderState::Closed,
{
}

} // verus!
