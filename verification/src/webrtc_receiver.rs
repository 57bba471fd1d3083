//! The controller of a producer's session. Towards the producer the server is
//! the answerer: it takes the producer's offer, answers it, and relays what
//! the producer sends on its track and data channel.

use vstd::prelude::*;

use crate::action::{
    description_sent, flush, is_add_candidate, is_send_description, is_send_trickle, replay,
    replayed, sent, PeerAction, PeerActionView, PeerConnectionState, SdpKind,
};
use crate::channel::{Channel, ChannelId};
use crate::channel_sender::ChannelSender;
use crate::protocol::{
    IceCandidate, IceCandidateView, ServerReceiverMessage, SessionDescription, SignalView,
};
use crate::views::{lemma_views_push, views};
use crate::webrtc_api::WebRtcApi;
use crate::webrtc_data_receiver::WebRtcDataReceiver;
use crate::webrtc_media_receiver::WebRtcMediaReceiver;
use crate::webrtc_utils::{
    add_remote_icecandidate, init_view, local_candidate, remote_candidate,
    send_local_icecandidate,
    IceCandidateInit, IceCandidateInitView,
};

verus! {

/// How far the negotiation with a producer has come.
#[derive(Clone, Copy, Debug, PartialEq, Eq, Hash, Structural)]
pub enum ReceiverState {
    /// No remote description is set.
    Fresh,
    /// The producer's offer is set as the remote description.
    RemoteOffered,
    /// The answer is set as the local description and was sent.
    LocalAnswered,
    /// The peer connection has reported that it is connected.
    Connected,
    /// The session is over; nothing is asked of the driver any more.
    Closed,
}

/// What the driver is asked to do for a producer.
pub type ReceiverAction = PeerAction<ServerReceiverMessage>;

/// A [`ReceiverAction`] as mathematical values.
pub type ReceiverActionView = PeerActionView<SignalView>;

/// What can happen to the controller of a producer's session.
pub enum ReceiverEvent {
    /// The producer sent its offer.
    Offer(Seq<char>),
    /// The peer connection has set the remote description.
    RemoteDescriptionSet,
    /// The peer connection has made this answer.
    AnswerCreated(Seq<char>),
    /// The peer connection has set the local description.
    LocalDescriptionSet,
    /// The producer sent a candidate.
    RemoteCandidate(IceCandidateView),
    /// The producer said that it has no more candidates.
    AllRemoteCandidatesSent,
    /// The peer connection found a candidate of its own, or none any more.
    LocalCandidate(Option<IceCandidateInitView>),
    /// The peer connection reports its state.
    ConnectionState(PeerConnectionState),
    /// The session ended: the producer went away, or the driver failed at
    /// something it was asked to do.
    Close,
}

/// The controller of a producer's session as mathematical values.
pub struct WebRtcReceiverView {
    /// The relay channel that the producer writes to.
    pub channel_id: ChannelId,
    pub state: ReceiverState,
    /// The producer's candidates that wait for the remote description, oldest first.
    pub delayed: Seq<IceCandidateView>,
    /// What waits to be sent behind the answer, oldest first.
    pub held: Seq<SignalView>,
    /// The answer that is being set as the local description.
    pub answer: Option<Seq<char>>,
}

impl WebRtcReceiverView {
    /// The controller of a session that has just begun.
    pub open spec fn fresh(channel_id: ChannelId) -> WebRtcReceiverView {
        WebRtcReceiverView {
            channel_id,
            state: ReceiverState::Fresh,
            delayed: Seq::empty(),
            held: Seq::empty(),
            answer: None,
        }
    }

    /// What the driver is asked to do when the session begins.
    pub open spec fn setup() -> Seq<ReceiverActionView> {
        seq![PeerActionView::CreatePeerConnection(WebRtcApi::spec_default_config())]
    }

    /// What the driver is asked to do when the session ends.
    pub open spec fn teardown() -> Seq<ReceiverActionView> {
        seq![PeerActionView::ClosePeerConnection, PeerActionView::CloseRelay]
    }

    /// Whether the peer connection has a remote description.
    pub open spec fn has_remote_description(self) -> bool {
        self.state == ReceiverState::RemoteOffered || self.state == ReceiverState::LocalAnswered
            || self.state == ReceiverState::Connected
    }

    /// Whether the answer was sent.
    pub open spec fn has_answered(self) -> bool {
        self.state == ReceiverState::LocalAnswered || self.state == ReceiverState::Connected
    }

    /// The controller of a session that is over.
    pub open spec fn closed(self) -> WebRtcReceiverView {
        WebRtcReceiverView {
            state: ReceiverState::Closed,
            delayed: Seq::empty(),
            held: Seq::empty(),
            answer: None,
            ..self
        }
    }

    /// What a candidate of the peer connection's own becomes on the wire.
    pub open spec fn local_message(candidate: Option<IceCandidateInitView>) -> SignalView {
        match candidate {
            Some(init) => SignalView::Candidate(local_candidate(init)),
            None => SignalView::AllCandidatesSent,
        }
    }

    /// The controller after `event`.
    pub open spec fn step(self, event: ReceiverEvent) -> WebRtcReceiverView {
        match event {
            ReceiverEvent::Offer(_) => self,
            ReceiverEvent::RemoteDescriptionSet => if self.state == ReceiverState::Fresh {
                WebRtcReceiverView { state: ReceiverState::RemoteOffered, ..self }
            } else {
                self
            },
            ReceiverEvent::AnswerCreated(sdp) => if self.has_remote_description() {
                WebRtcReceiverView { answer: Some(sdp), ..self }
            } else {
                self
            },
            ReceiverEvent::LocalDescriptionSet => if self.has_remote_description()
                && self.answer is Some {
                WebRtcReceiverView {
                    state: if self.state == ReceiverState::RemoteOffered {
                        ReceiverState::LocalAnswered
                    } else {
                        self.state
                    },
                    delayed: Seq::empty(),
                    held: Seq::empty(),
                    answer: None,
                    ..self
                }
            } else {
                self
            },
            ReceiverEvent::RemoteCandidate(candidate) => if self.state == ReceiverState::Fresh {
                WebRtcReceiverView { delayed: self.delayed.push(candidate), ..self }
            } else {
                self
            },
            ReceiverEvent::AllRemoteCandidatesSent => self,
            ReceiverEvent::LocalCandidate(candidate) => if self.state == ReceiverState::Fresh
                || self.state == ReceiverState::RemoteOffered {
                WebRtcReceiverView { held: self.held.push(Self::local_message(candidate)), ..self }
            } else {
                self
            },
            ReceiverEvent::ConnectionState(reported) => if reported
                == PeerConnectionState::Connected && self.state == ReceiverState::LocalAnswered {
                WebRtcReceiverView { state: ReceiverState::Connected, ..self }
            } else if reported == PeerConnectionState::Failed || reported
                == PeerConnectionState::Closed {
                self.closed()
            } else {
                self
            },
            ReceiverEvent::Close => self.closed(),
        }
    }

    /// What the driver is asked to do upon `event`, in order.
    pub open spec fn actions(self, event: ReceiverEvent) -> Seq<ReceiverActionView> {
        if self.state == ReceiverState::Closed {
            Seq::empty()
        } else {
            match event {
                ReceiverEvent::Offer(sdp) => seq![
                    PeerActionView::SetRemoteDescription(SdpKind::Offer, sdp),
                ],
                ReceiverEvent::RemoteDescriptionSet => seq![PeerActionView::CreateAnswer],
                ReceiverEvent::AnswerCreated(sdp) => if self.has_remote_description() {
                    seq![PeerActionView::SetLocalDescription(SdpKind::Answer, sdp)]
                } else {
                    Seq::empty()
                },
                ReceiverEvent::LocalDescriptionSet => if self.has_remote_description()
                    && self.answer is Some {
                    seq![PeerActionView::Send(SignalView::Description(self.answer->0))] + sent(
                        self.held,
                    ) + replayed(self.delayed)
                } else {
                    Seq::empty()
                },
                ReceiverEvent::RemoteCandidate(candidate) => if self.has_remote_description() {
                    seq![PeerActionView::AddIceCandidate(remote_candidate(candidate))]
                } else {
                    Seq::empty()
                },
                ReceiverEvent::AllRemoteCandidatesSent => Seq::empty(),
                ReceiverEvent::LocalCandidate(candidate) => if self.has_answered() {
                    seq![PeerActionView::Send(Self::local_message(candidate))]
                } else {
                    Seq::empty()
                },
                ReceiverEvent::ConnectionState(reported) => if reported
                    == PeerConnectionState::Failed || reported == PeerConnectionState::Closed {
                    Self::teardown()
                } else {
                    Seq::empty()
                },
                ReceiverEvent::Close => Self::teardown(),
            }
        }
    }

    /// The controller after the events of `events`, in order.
    pub open spec fn run(self, events: Seq<ReceiverEvent>) -> WebRtcReceiverView
        decreases events.len(),
    {
        if events.len() == 0 {
            self
        } else {
            self.run(events.drop_last()).step(events.last())
        }
    }

    /// All that the driver is asked to do upon the events of `events`, in order.
    pub open spec fn trace(self, events: Seq<ReceiverEvent>) -> Seq<ReceiverActionView>
        decreases events.len(),
    {
        if events.len() == 0 {
            Seq::empty()
        } else {
            self.trace(events.drop_last()) + self.run(events.drop_last()).actions(events.last())
        }
    }
}

/// The controller of a producer's session.
#[derive(Debug)]
pub struct WebRtcReceiver {
    channel_sender: ChannelSender,
    state: ReceiverState,
    delayed_icecandidates: Vec<IceCandidate>,
    held_messages: Vec<ServerReceiverMessage>,
    answer: Option<SessionDescription>,
}

impl View for WebRtcReceiver {
    type V = WebRtcReceiverView;

    closed spec fn view(&self) -> WebRtcReceiverView {
        WebRtcReceiverView {
            channel_id: self.channel_sender.channel_id(),
            state: self.state,
            delayed: views(self.delayed_icecandidates@),
            held: views(self.held_messages@),
            answer: match self.answer {
                Some(sdp) => Some(sdp@),
                None => None,
            },
        }
    }
}

impl WebRtcReceiver {
    /// Begins the session of a producer that writes to the channel of
    /// `channel_sender`: the driver is asked for a peer connection.
    pub fn new(channel_sender: ChannelSender) -> (begun: (WebRtcReceiver, Vec<ReceiverAction>))
        ensures
            begun.0@ == WebRtcReceiverView::fresh(channel_sender.channel_id()),
            views(begun.1@) == WebRtcReceiverView::setup(),
    {
        let receiver = WebRtcReceiver {
            channel_sender,
            state: ReceiverState::Fresh,
            delayed_icecandidates: Vec::new(),
            held_messages: Vec::new(),
            answer: None,
        };
        let mut actions: Vec<ReceiverAction> = Vec::new();
        actions.push(PeerAction::CreatePeerConnection(WebRtcApi::default_config()));
        assert(views(receiver.delayed_icecandidates@) =~= Seq::empty());
        assert(views(receiver.held_messages@) =~= Seq::empty());
        assert(views(actions@) =~= WebRtcReceiverView::setup());
        (receiver, actions)
    }

    /// The relay channel that the producer writes to.
    pub fn channel_id(&self) -> (id: ChannelId)
        ensures
            id == self@.channel_id,
    {
        self.channel_sender.channel_id()
    }

    /// How far the negotiation has come.
    pub fn state(&self) -> (state: ReceiverState)
        ensures
            state == self@.state,
    {
        self.state
    }

    fn has_remote_description(&self) -> (b: bool)
        ensures
            b == self@.has_remote_description(),
    {
        match self.state {
            ReceiverState::RemoteOffered | ReceiverState::LocalAnswered | ReceiverState::Connected => true,
            _ => false,
        }
    }

    fn is_closed(&self) -> (b: bool)
        ensures
            b == (self@.state == ReceiverState::Closed),
    {
        match self.state {
            ReceiverState::Closed => true,
            _ => false,
        }
    }

    /// The producer's offer has come: it is to be set as the remote description.
    pub fn on_offer(&mut self, sdp: SessionDescription) -> (actions: Vec<ReceiverAction>)
        ensures
            final(self)@ == old(self)@.step(ReceiverEvent::Offer(sdp@)),
            views(actions@) == old(self)@.actions(ReceiverEvent::Offer(sdp@)),
    {
        let mut actions: Vec<ReceiverAction> = Vec::new();
        if !self.is_closed() {
            actions.push(PeerAction::SetRemoteDescription(SdpKind::Offer, sdp));
        }
        assert(views(actions@) =~= old(self)@.actions(ReceiverEvent::Offer(sdp@)));
        actions
    }

    /// The remote description is set: an answer is to be made. From now on the
    /// producer's candidates go to the peer connection as they come.
    pub fn on_remote_description_set(&mut self) -> (actions: Vec<ReceiverAction>)
        ensures
            final(self)@ == old(self)@.step(ReceiverEvent::RemoteDescriptionSet),
            views(actions@) == old(self)@.actions(ReceiverEvent::RemoteDescriptionSet),
    {
        let mut actions: Vec<ReceiverAction> = Vec::new();
        if !self.is_closed() {
            actions.push(PeerAction::CreateAnswer);
        }
        match self.state {
            ReceiverState::Fresh => {
                self.state = ReceiverState::RemoteOffered;
            },
            _ => {},
        }
        assert(views(actions@) =~= old(self)@.actions(ReceiverEvent::RemoteDescriptionSet));
        actions
    }

    /// The answer is made: it is to be set as the local description.
    pub fn on_answer_created(&mut self, sdp: SessionDescription) -> (actions: Vec<ReceiverAction>)
        ensures
            final(self)@ == old(self)@.step(ReceiverEvent::AnswerCreated(sdp@)),
            views(actions@) == old(self)@.actions(ReceiverEvent::AnswerCreated(sdp@)),
    {
        let mut actions: Vec<ReceiverAction> = Vec::new();
        if self.has_remote_description() {
            let copy = SessionDescription(sdp.0.clone());
            self.answer = Some(sdp);
            actions.push(PeerAction::SetLocalDescription(SdpKind::Answer, copy));
        }
        assert(views(actions@) =~= old(self)@.actions(ReceiverEvent::AnswerCreated(sdp@)));
        actions
    }

    /// The local description is set: the answer is sent, behind it what was
    /// held back for it, and then the producer's candidates that came before
    /// the offer go to the peer connection, oldest first.
    pub fn on_local_description_set(&mut self) -> (actions: Vec<ReceiverAction>)
        ensures
            final(self)@ == old(self)@.step(ReceiverEvent::LocalDescriptionSet),
            views(actions@) == old(self)@.actions(ReceiverEvent::LocalDescriptionSet),
    {
        let mut actions: Vec<ReceiverAction> = Vec::new();
        if self.has_remote_description() {
            match self.answer.take() {
                Some(sdp) => {
                    actions.push(PeerAction::Send(ServerReceiverMessage::Answer(sdp)));
                    assert(views(actions@) =~= seq![
                        PeerActionView::Send(SignalView::Description(sdp@)),
                    ]);
                    flush(&mut self.held_messages, &mut actions);
                    replay(&mut self.delayed_icecandidates, &mut actions);
                    match self.state {
                        ReceiverState::RemoteOffered => {
                            self.state = ReceiverState::LocalAnswered;
                        },
                        _ => {},
                    }
                    assert(views(self.delayed_icecandidates@) =~= Seq::empty());
                    assert(views(self.held_messages@) =~= Seq::empty());
                },
                None => {},
            }
        }
        assert(views(actions@) =~= old(self)@.actions(ReceiverEvent::LocalDescriptionSet));
        actions
    }

    /// A candidate of the producer has come. With the remote description set
    /// it goes to the peer connection; before that it waits behind those that
    /// came earlier.
    pub fn on_remote_icecandidate(&mut self, ice_candidate: IceCandidate) -> (actions: Vec<
        ReceiverAction,
    >)
        ensures
            final(self)@ == old(self)@.step(ReceiverEvent::RemoteCandidate(ice_candidate@)),
            views(actions@) == old(self)@.actions(ReceiverEvent::RemoteCandidate(ice_candidate@)),
    {
        let mut actions: Vec<ReceiverAction> = Vec::new();
        if !self.is_closed() {
            let has_remote_description = self.has_remote_description();
            match add_remote_icecandidate(
                has_remote_description,
                ice_candidate,
                &mut self.delayed_icecandidates,
            ) {
                Some(init) => {
                    actions.push(PeerAction::AddIceCandidate(init));
                },
                None => {},
            }
        }
        assert(views(actions@) =~= old(self)@.actions(
            ReceiverEvent::RemoteCandidate(ice_candidate@),
        ));
        actions
    }

    /// The producer has no more candidates. Nothing follows from it: the peer
    /// connection goes on to take candidates until it finds for itself that
    /// there are no more.
    pub fn on_all_remote_icecandidates_sent(&mut self) -> (actions: Vec<ReceiverAction>)
        ensures
            final(self)@ == old(self)@.step(ReceiverEvent::AllRemoteCandidatesSent),
            views(actions@) == old(self)@.actions(ReceiverEvent::AllRemoteCandidatesSent),
    {
        let actions: Vec<ReceiverAction> = Vec::new();
        assert(views(actions@) =~= old(self)@.actions(ReceiverEvent::AllRemoteCandidatesSent));
        actions
    }

    /// The peer connection has found a candidate of its own, or (`None`) no
    /// more of them. The producer is told, but not before it was sent the
    /// answer: until then the message is held back.
    pub fn on_local_icecandidate(&mut self, ice_candidate: Option<IceCandidateInit>) -> (actions:
        Vec<ReceiverAction>)
        ensures
            final(self)@ == old(self)@.step(ReceiverEvent::LocalCandidate(init_view(ice_candidate))),
            views(actions@) == old(self)@.actions(
                ReceiverEvent::LocalCandidate(init_view(ice_candidate)),
            ),
    {
        let ghost event = ReceiverEvent::LocalCandidate(init_view(ice_candidate));
        let mut actions: Vec<ReceiverAction> = Vec::new();
        match self.state {
            ReceiverState::Closed => {},
            ReceiverState::Fresh | ReceiverState::RemoteOffered => {
                let message = match send_local_icecandidate(ice_candidate) {
                    Some(candidate) => ServerReceiverMessage::IceCandidate(candidate),
                    None => ServerReceiverMessage::AllIceCandidatesSent,
                };
                proof {
                    lemma_views_push(self.held_messages@, message);
                }
                self.held_messages.push(message);
            },
            ReceiverState::LocalAnswered | ReceiverState::Connected => {
                let message = match send_local_icecandidate(ice_candidate) {
                    Some(candidate) => ServerReceiverMessage::IceCandidate(candidate),
                    None => ServerReceiverMessage::AllIceCandidatesSent,
                };
                actions.push(PeerAction::Send(message));
            },
        }
        assert(views(actions@) =~= old(self)@.actions(event));
        actions
    }

    /// The peer connection reports its state. Once the answer is sent,
    /// `Connected` completes the negotiation; `Failed` and `Closed` end the
    /// session.
    pub fn on_peer_connection_state_change(&mut self, state: PeerConnectionState) -> (actions: Vec<
        ReceiverAction,
    >)
        ensures
            final(self)@ == old(self)@.step(ReceiverEvent::ConnectionState(state)),
            views(actions@) == old(self)@.actions(ReceiverEvent::ConnectionState(state)),
    {
        let mut actions: Vec<ReceiverAction> = Vec::new();
        match state {
            PeerConnectionState::Connected => {
                match self.state {
                    ReceiverState::LocalAnswered => {
                        self.state = ReceiverState::Connected;
                    },
                    _ => {},
                }
            },
            PeerConnectionState::Failed | PeerConnectionState::Closed => {
                actions = self.shut();
            },
            _ => {},
        }
        assert(views(actions@) =~= old(self)@.actions(ReceiverEvent::ConnectionState(state)));
        actions
    }

    /// Ends the session: the producer went away, or the driver failed at
    /// something it was asked to do. What waited is forgotten. The driver is
    /// asked to close the peer connection and the producer side of the relay
    /// channel, and after that nothing any more.
    pub fn close(&mut self) -> (actions: Vec<ReceiverAction>)
        ensures
            final(self)@ == old(self)@.step(ReceiverEvent::Close),
            views(actions@) == old(self)@.actions(ReceiverEvent::Close),
    {
        self.shut()
    }

    fn shut(&mut self) -> (actions: Vec<ReceiverAction>)
        ensures
            final(self)@ == old(self)@.closed(),
            views(actions@) == if old(self)@.state == ReceiverState::Closed {
                Seq::empty()
            } else {
                WebRtcReceiverView::teardown()
            },
    {
        let mut actions: Vec<ReceiverAction> = Vec::new();
        if !self.is_closed() {
            actions.push(PeerAction::ClosePeerConnection);
            actions.push(PeerAction::CloseRelay);
        }
        self.state = ReceiverState::Closed;
        self.delayed_icecandidates.clear();
        self.held_messages.clear();
        self.answer = None;
        assert(views(self.delayed_icecandidates@) =~= Seq::empty());
        assert(views(self.held_messages@) =~= Seq::empty());
        assert(views(actions@) =~= if old(self)@.state == ReceiverState::Closed {
            Seq::empty()
        } else {
            WebRtcReceiverView::teardown()
        });
        actions
    }

    /// Closes the producer side of `channel`, if it is the channel that the
    /// producer writes to: what the driver does when asked to close the relay.
    pub fn close_relay(&self, channel: &mut Channel) -> (closed: bool)
        ensures
            closed == (self@.channel_id == old(channel)@.channel_id),
            closed ==> final(channel)@ == old(channel)@.close(),
            !closed ==> final(channel)@ == old(channel)@,
    {
        self.channel_sender.close(channel)
    }

    /// The producer has opened a data channel: its messages are to be relayed.
    pub fn on_data_channel(&self) -> (data_receiver: WebRtcDataReceiver)
        ensures
            data_receiver.channel_id() == self@.channel_id,
    {
        WebRtcDataReceiver::new(ChannelSender::new(self.channel_sender.channel_id()))
    }

    /// The peer connection reports a track of the producer, or none: the
    /// packets of a track are to be relayed.
    pub fn on_track(&self, has_track: bool) -> (media_receiver: Option<WebRtcMediaReceiver>)
        ensures
            media_receiver is Some <==> has_track,
            media_receiver matches Some(r) ==> r.channel_id() == self@.channel_id,
    {
        if has_track {
            Some(WebRtcMediaReceiver::new(ChannelSender::new(self.channel_sender.channel_id())))
        } else {
            None
        }
    }
}

/// Whether the remote description was reported set among the first `upto` of `events`.
pub open spec fn remote_description_reported(events: Seq<ReceiverEvent>, upto: int) -> bool {
    exists|j: int| 0 <= j < upto && j < events.len() && #[trigger] events[j] is RemoteDescriptionSet
}

proof fn lemma_run_push(view: WebRtcReceiverView, events: Seq<ReceiverEvent>, event: ReceiverEvent)
    ensures
        view.run(events.push(event)) == view.run(events).step(event),
        view.trace(events.push(event)) == view.trace(events) + view.run(events).actions(event),
{
    assert(events.push(event).drop_last() =~= events);
}

proof fn lemma_remote_description_reported(
    channel_id: ChannelId,
    events: Seq<ReceiverEvent>,
)
    ensures
        WebRtcReceiverView::fresh(channel_id).run(events).has_remote_description()
            ==> remote_description_reported(events, events.len() as int),
        WebRtcReceiverView::fresh(channel_id).run(events).channel_id == channel_id,
    decreases events.len(),
{
    if events.len() > 0 {
        let before = events.drop_last();
        lemma_remote_description_reported(channel_id, before);
        let fresh = WebRtcReceiverView::fresh(channel_id);
        if fresh.run(events).has_remote_description() {
            if fresh.run(before).has_remote_description() {
                let j = choose|j: int|
                    0 <= j < before.len() && #[trigger] before[j] is RemoteDescriptionSet;
                assert(events[j] is RemoteDescriptionSet);
            } else {
                assert(events[events.len() - 1] is RemoteDescriptionSet);
            }
        }
    }
}

/// No candidate reaches the peer connection before the remote description is
/// set: whatever happens to a controller from its beginning on, an action that
/// hands over a candidate is asked for only after the driver has reported that
/// the remote description is set.
pub proof fn law_no_candidate_before_remote_description(
    channel_id: ChannelId,
    events: Seq<ReceiverEvent>,
    k: int,
    i: int,
)
    requires
        0 <= k < events.len(),
        0 <= i < WebRtcReceiverView::fresh(channel_id).run(events.take(k)).actions(events[k]).len(),
        is_add_candidate(
            WebRtcReceiverView::fresh(channel_id).run(events.take(k)).actions(events[k])[i],
        ),
    ensures
        remote_description_reported(events, k),
{
    let before = events.take(k);
    let state = WebRtcReceiverView::fresh(channel_id).run(before);
    lemma_remote_description_reported(channel_id, before);
    assert(state.has_remote_description()) by {
        let actions = state.actions(events[k]);
        match events[k] {
            ReceiverEvent::LocalDescriptionSet => {},
            ReceiverEvent::RemoteCandidate(_) => {},
            _ => {},
        }
    }
    let j = choose|j: int| 0 <= j < before.len() && #[trigger] before[j] is RemoteDescriptionSet;
    assert(events[j] is RemoteDescriptionSet);
}

proof fn lemma_candidates_wait(channel_id: ChannelId, candidates: Seq<IceCandidateView>)
    ensures
        WebRtcReceiverView::fresh(channel_id).run(
            candidates.map_values(|c: IceCandidateView| ReceiverEvent::RemoteCandidate(c)),
        ) == (WebRtcReceiverView { delayed: candidates, ..WebRtcReceiverView::fresh(channel_id) }),
        WebRtcReceiverView::fresh(channel_id).trace(
            candidates.map_values(|c: IceCandidateView| ReceiverEvent::RemoteCandidate(c)),
        ) == Seq::<ReceiverActionView>::empty(),
    decreases candidates.len(),
{
    let wrap = |c: IceCandidateView| ReceiverEvent::RemoteCandidate(c);
    let fresh = WebRtcReceiverView::fresh(channel_id);
    if candidates.len() == 0 {
        assert(candidates =~= Seq::empty());
    } else {
        lemma_candidates_wait(channel_id, candidates.drop_last());
        assert(candidates.map_values(wrap).drop_last() =~= candidates.drop_last().map_values(wrap));
        assert(candidates.drop_last().push(candidates.last()) =~= candidates);
    }
}

/// Candidates that come before the offer are not lost and not reordered. When
/// a producer sends `candidates` and then its offer, and the peer connection
/// sets the offer, makes `answer` and sets it, then the driver is asked, in
/// this order: to set the offer as the remote description, to make an answer,
/// to set it as the local description, to send it, and to hand over each of
/// `candidates`, oldest first. After that nothing waits.
pub proof fn law_early_candidates_replayed_in_order(
    channel_id: ChannelId,
    candidates: Seq<IceCandidateView>,
    offer: Seq<char>,
    answer: Seq<char>,
)
    ensures
        WebRtcReceiverView::fresh(channel_id).trace(
            candidates.map_values(|c: IceCandidateView| ReceiverEvent::RemoteCandidate(c)) + seq![
                ReceiverEvent::Offer(offer),
                ReceiverEvent::RemoteDescriptionSet,
                ReceiverEvent::AnswerCreated(answer),
                ReceiverEvent::LocalDescriptionSet,
            ],
        ) == seq![
            PeerActionView::SetRemoteDescription(SdpKind::Offer, offer),
            PeerActionView::CreateAnswer,
            PeerActionView::SetLocalDescription(SdpKind::Answer, answer),
            PeerActionView::Send(SignalView::Description(answer)),
        ] + replayed::<SignalView>(candidates),
        WebRtcReceiverView::fresh(channel_id).run(
            candidates.map_values(|c: IceCandidateView| ReceiverEvent::RemoteCandidate(c)) + seq![
                ReceiverEvent::Offer(offer),
                ReceiverEvent::RemoteDescriptionSet,
                ReceiverEvent::AnswerCreated(answer),
                ReceiverEvent::LocalDescriptionSet,
            ],
        ) == (WebRtcReceiverView {
            state: ReceiverState::LocalAnswered,
            ..WebRtcReceiverView::fresh(channel_id)
        }),
{
    let fresh = WebRtcReceiverView::fresh(channel_id);
    let early = candidates.map_values(|c: IceCandidateView| ReceiverEvent::RemoteCandidate(c));
    let e1 = ReceiverEvent::Offer(offer);
    let e2 = ReceiverEvent::RemoteDescriptionSet;
    let e3 = ReceiverEvent::AnswerCreated(answer);
    let e4 = ReceiverEvent::LocalDescriptionSet;
    lemma_candidates_wait(channel_id, candidates);
    lemma_run_push(fresh, early, e1);
    lemma_run_push(fresh, early.push(e1), e2);
    lemma_run_push(fresh, early.push(e1).push(e2), e3);
    lemma_run_push(fresh, early.push(e1).push(e2).push(e3), e4);
    assert(early.push(e1).push(e2).push(e3).push(e4) =~= early + seq![e1, e2, e3, e4]);
    let all = early + seq![e1, e2, e3, e4];
    assert(sent::<SignalView>(Seq::empty()) =~= Seq::empty());
    assert(fresh.trace(all) =~= seq![
        PeerActionView::SetRemoteDescription(SdpKind::Offer, offer),
        PeerActionView::CreateAnswer,
        PeerActionView::SetLocalDescription(SdpKind::Answer, answer),
        PeerActionView::Send(SignalView::Description(answer)),
    ] + replayed::<SignalView>(candidates));
}

proof fn lemma_answer_first(channel_id: ChannelId, events: Seq<ReceiverEvent>)
    ensures
        WebRtcReceiverView::fresh(channel_id).run(events).has_answered() ==> description_sent(
            WebRtcReceiverView::fresh(channel_id).trace(events),
            WebRtcReceiverView::fresh(channel_id).trace(events).len() as int,
        ),
        forall|q: int|
            0 <= q < WebRtcReceiverView::fresh(channel_id).trace(events).len() && is_send_trickle(
                #[trigger] WebRtcReceiverView::fresh(channel_id).trace(events)[q],
            ) ==> description_sent(WebRtcReceiverView::fresh(channel_id).trace(events), q),
    decreases events.len(),
{
    let fresh = WebRtcReceiverView::fresh(channel_id);
    if events.len() > 0 {
        let before = events.drop_last();
        let event = events.last();
        lemma_answer_first(channel_id, before);
        let state = fresh.run(before);
        let old_trace = fresh.trace(before);
        let added = state.actions(event);
        let trace = fresh.trace(events);
        assert(trace == old_trace + added);
        let n = old_trace.len() as int;
        // What was sent stays sent.
        assert forall|upto: int| description_sent(old_trace, upto) implies description_sent(
            trace,
            upto,
        ) by {
            let p = choose|p: int|
                0 <= p < upto && p < old_trace.len() && is_send_description(
                    #[trigger] old_trace[p],
                );
            assert(trace[p] == old_trace[p]);
        }
        // An answer among the added actions is the first of them.
        let answers = event is LocalDescriptionSet && state.has_remote_description()
            && state.answer is Some && state.state != ReceiverState::Closed;
        if answers {
            assert(added[0] == PeerActionView::<SignalView>::Send(
                SignalView::Description(state.answer->0),
            ));
            assert(trace[n] == added[0]);
            assert(is_send_description(trace[n]));
        }
        assert forall|q: int| 0 <= q < trace.len() && is_send_trickle(#[trigger] trace[q])
            implies description_sent(trace, q) by {
            if q < n {
                assert(trace[q] == old_trace[q]);
            } else {
                assert(trace[q] == added[q - n]);
                if answers {
                    assert(q != n);
                    assert(is_send_description(trace[n]));
                } else {
                    assert(state.has_answered());
                    assert(description_sent(old_trace, n));
                    let p = choose|p: int|
                        0 <= p < n && p < old_trace.len() && is_send_description(
                            #[trigger] old_trace[p],
                        );
                    assert(trace[p] == old_trace[p]);
                }
            }
        }
        if fresh.run(events).has_answered() {
            if answers {
                assert(is_send_description(trace[n]));
            } else {
                assert(state.has_answered());
                assert(description_sent(trace, n));
                let p = choose|p: int|
                    0 <= p < n && p < trace.len() && is_send_description(#[trigger] trace[p]);
                assert(is_send_description(trace[p]));
            }
        }
    }
}

/// The answer goes first: whatever happens to a controller from its beginning
/// on, the producer is told of no candidate of the server, nor of their end,
/// before it was sent an answer.
pub proof fn law_answer_before_candidates(
    channel_id: ChannelId,
    events: Seq<ReceiverEvent>,
    q: int,
)
    requires
        0 <= q < WebRtcReceiverView::fresh(channel_id).trace(events).len(),
        is_send_trickle(WebRtcReceiverView::fresh(channel_id).trace(events)[q]),
    ensures
        description_sent(WebRtcReceiverView::fresh(channel_id).trace(events), q),
{
    lemma_answer_first(channel_id, events);
}

/// However a session ends, the driver is asked once to close the peer
/// connection and the producer side of the relay channel, so that the
/// consumer's side meets the end of the stream.
pub proof fn law_session_end_closes_relay(view: WebRtcReceiverView, event: ReceiverEvent)
    requires
        view.state != ReceiverState::Closed,
        view.step(event).state == ReceiverState::Closed,
    ensures
        view.actions(event) == WebRtcReceiverView::teardown(),
{
}

/// How far a state is along the course of a session.
pub open spec fn receiver_progress(state: ReceiverState) -> nat {
    match state {
        ReceiverState::Fresh => 0,
        ReceiverState::RemoteOffered => 1,
        ReceiverState::LocalAnswered => 2,
        ReceiverState::Connected => 3,
        ReceiverState::Closed => 4,
    }
}

/// A session only moves forward: from fresh to offered, to answered, to
/// connected, to closed, one step at a time unless it is closed early.
pub proof fn law_states_advance(view: WebRtcReceiverView, event: ReceiverEvent)
    ensures
        receiver_progress(view.state) <= receiver_progress(view.step(event).state),
        view.step(event).state != ReceiverState::Closed ==> receiver_progress(
            view.step(event).state,
        ) <= receiver_progress(view.state) + 1,
        view.step(event).channel_id == view.channel_id,
{
}

/// The candidates of the producer among `events`, in order.
pub open spec fn remote_candidates(events: Seq<ReceiverEvent>) -> Seq<IceCandidateView>
    decreases events.len(),
{
    if events.len() == 0 {
        Seq::empty()
    } else {
        match events.last() {
            ReceiverEvent::RemoteCandidate(candidate) => remote_candidates(
                events.drop_last(),
            ).push(candidate),
            _ => remote_candidates(events.drop_last()),
        }
    }
}

/// While no remote description is set, every candidate that the producer has
/// sent waits, in the order sent, and none was handed over.
pub proof fn law_early_candidates_wait_in_order(channel_id: ChannelId, events: Seq<ReceiverEvent>)
    requires
        WebRtcReceiverView::fresh(channel_id).run(events).state == ReceiverState::Fresh,
    ensures
        WebRtcReceiverView::fresh(channel_id).run(events).delayed == remote_candidates(events),
        forall|q: int|
            0 <= q < WebRtcReceiverView::fresh(channel_id).trace(events).len()
                ==> !is_add_candidate(
                #[trigger] WebRtcReceiverView::fresh(channel_id).trace(events)[q],
            ),
    decreases events.len(),
{
    let fresh = WebRtcReceiverView::fresh(channel_id);
    if events.len() > 0 {
        let before = events.drop_last();
        law_states_advance(fresh.run(before), events.last());
        law_early_candidates_wait_in_order(channel_id, before);
        let old_trace = fresh.trace(before);
        let added = fresh.run(before).actions(events.last());
        let trace = fresh.trace(events);
        assert forall|q: int| 0 <= q < trace.len() implies !is_add_candidate(
            #[trigger] trace[q],
        ) by {
            if q < old_trace.len() {
                assert(trace[q] == old_trace[q]);
            } else {
                assert(trace[q] == added[q - old_trace.len()]);
            }
        }
    }
}

/// Once the answer is sent nothing waits any more: the candidates that came
/// early were handed over and what was held back was sent.
pub proof fn law_nothing_waits_after_answer(channel_id: ChannelId, events: Seq<ReceiverEvent>)
    ensures
        receiver_progress(WebRtcReceiverView::fresh(channel_id).run(events).state) >= 2
            ==> WebRtcReceiverView::fresh(channel_id).run(events).delayed.len() == 0
            && WebRtcReceiverView::fresh(channel_id).run(events).held.len() == 0,
    decreases events.len(),
{
    if events.len() > 0 {
        law_nothing_waits_after_answer(channel_id, events.drop_last());
        law_states_advance(
            WebRtcReceiverView::fresh(channel_id).run(events.drop_last()),
            events.last(),
        );
    }
}

/// A session that is over asks nothing of the driver, whatever happens.
pub proof fn law_closed_is_silent(view: WebRtcReceiverView, event: ReceiverEvent)
    requires
        view.state == ReceiverState::Closed,
    ensures
        view.actions(event) == Seq::<ReceiverActionView>::empty(),
        view.step(event).state == ReceiverState::Closed,
{
}

} // verus!
