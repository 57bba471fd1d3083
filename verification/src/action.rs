//! What a controller asks its driver to do. The driver performs the actions of
//! a list in order, each to its end before the next, and reports what the
//! peer connection answers by calling the controller again.

use vstd::prelude::*;

use crate::protocol::{IceCandidate, IceCandidateView, SessionDescription, SignalView};
use crate::views::{lemma_views_push, lemma_views_remove_first, views};
use crate::webrtc_api::RtcConfiguration;
use crate::webrtc_utils::{remote_candidate, IceCandidateInit, IceCandidateInitView};

verus! {

/// The role of a session description in a negotiation.
#[derive(Clone, Copy, Debug, PartialEq, Eq, Hash, Structural)]
pub enum SdpKind {
    Offer,
    Answer,
}

/// What the peer connection reports of itself.
#[derive(Clone, Copy, Debug, PartialEq, Eq, Hash, Structural)]
pub enum PeerConnectionState {
    Unspecified,
    New,
    Connecting,
    Connected,
    Disconnected,
    Failed,
    Closed,
}

/// A local track to be created and added to the peer connection.
#[derive(Clone, Debug, PartialEq, Eq, Hash)]
pub struct TrackSpec {
    pub mime_type: String,
    pub id: String,
    pub stream_id: String,
}

/// A [`TrackSpec`] as mathematical values.
pub struct TrackSpecView {
    pub mime_type: Seq<char>,
    pub id: Seq<char>,
    pub stream_id: Seq<char>,
}

impl View for TrackSpec {
    type V = TrackSpecView;

    open spec fn view(&self) -> TrackSpecView {
        TrackSpecView { mime_type: self.mime_type@, id: self.id@, stream_id: self.stream_id@ }
    }
}

/// One thing for the driver to do; `M` is the vocabulary in which the
/// controller speaks to its peer.
#[derive(Clone, Debug, PartialEq, Eq, Hash)]
pub enum PeerAction<M> {
    /// Create the peer connection, and have its events reported.
    CreatePeerConnection(RtcConfiguration),
    /// Create an outgoing data channel with this label.
    CreateDataChannel(String),
    /// Create this local track and add it to the peer connection.
    AddTrack(TrackSpec),
    /// Have the peer connection make an offer, and report it.
    CreateOffer,
    /// Have the peer connection make an answer, and report it.
    CreateAnswer,
    /// Set the local description, and report when it is set.
    SetLocalDescription(SdpKind, SessionDescription),
    /// Set the remote description, and report when it is set.
    SetRemoteDescription(SdpKind, SessionDescription),
    /// Hand a candidate of the peer to the peer connection.
    AddIceCandidate(IceCandidateInit),
    /// Send a message to the peer.
    Send(M),
    /// Start to move frames from the relay channel to the peer.
    StartRelay,
    /// Close the peer connection.
    ClosePeerConnection,
    /// Close the producer side of the relay channel.
    CloseRelay,
}

/// A [`PeerAction`] as mathematical values; `V` is the view of a message.
pub enum PeerActionView<V> {
    CreatePeerConnection(Seq<Seq<Seq<char>>>),
    CreateDataChannel(Seq<char>),
    AddTrack(TrackSpecView),
    CreateOffer,
    CreateAnswer,
    SetLocalDescription(SdpKind, Seq<char>),
    SetRemoteDescription(SdpKind, Seq<char>),
    AddIceCandidate(IceCandidateInitView),
    Send(V),
    StartRelay,
    ClosePeerConnection,
    CloseRelay,
}

impl<M: View> View for PeerAction<M> {
    type V = PeerActionView<M::V>;

    open spec fn view(&self) -> PeerActionView<M::V> {
        match self {
            PeerAction::CreatePeerConnection(config) => PeerActionView::CreatePeerConnection(
                config@,
            ),
            PeerAction::CreateDataChannel(label) => PeerActionView::CreateDataChannel(label@),
            PeerAction::AddTrack(track) => PeerActionView::AddTrack(track@),
            PeerAction::CreateOffer => PeerActionView::CreateOffer,
            PeerAction::CreateAnswer => PeerActionView::CreateAnswer,
            PeerAction::SetLocalDescription(kind, sdp) => PeerActionView::SetLocalDescription(
                *kind,
                sdp@,
            ),
            PeerAction::SetRemoteDescription(kind, sdp) => PeerActionView::SetRemoteDescription(
                *kind,
                sdp@,
            ),
            PeerAction::AddIceCandidate(init) => PeerActionView::AddIceCandidate(init@),
            PeerAction::Send(message) => PeerActionView::Send(message@),
            PeerAction::StartRelay => PeerActionView::StartRelay,
            PeerAction::ClosePeerConnection => PeerActionView::ClosePeerConnection,
            PeerAction::CloseRelay => PeerActionView::CloseRelay,
        }
    }
}

/// Handing each of `delayed` to the peer connection, in order.
pub open spec fn replayed<V>(delayed: Seq<IceCandidateView>) -> Seq<PeerActionView<V>> {
    delayed.map_values(|c: IceCandidateView| PeerActionView::AddIceCandidate(remote_candidate(c)))
}

/// Sending each of `held` to the peer, in order.
pub open spec fn sent<V>(held: Seq<V>) -> Seq<PeerActionView<V>> {
    held.map_values(|m: V| PeerActionView::Send(m))
}

/// Whether `action` hands a candidate to the peer connection.
pub open spec fn is_add_candidate<V>(action: PeerActionView<V>) -> bool {
    action is AddIceCandidate
}

/// Whether `action` sends a session description to the peer.
pub open spec fn is_send_description(action: PeerActionView<SignalView>) -> bool {
    action matches PeerActionView::Send(message) && message is Description
}

/// Whether `action` tells the peer of a candidate, or of the end of candidates.
pub open spec fn is_send_trickle(action: PeerActionView<SignalView>) -> bool {
    action matches PeerActionView::Send(message) && !(message is Description)
}

/// Whether a session description is sent among the first `upto` of `trace`.
pub open spec fn description_sent(trace: Seq<PeerActionView<SignalView>>, upto: int) -> bool {
    exists|p: int| 0 <= p < upto && p < trace.len() && is_send_description(#[trigger] trace[p])
}

/// Appends to `actions` the handing over of each of `delayed`, in order, and
/// leaves `delayed` empty.
pub(crate) fn replay<M: View>(delayed: &mut Vec<IceCandidate>, actions: &mut Vec<PeerAction<M>>)
    ensures
        final(delayed)@.len() == 0,
        views(final(actions)@) == views(old(actions)@) + replayed::<M::V>(views(old(delayed)@)),
{
    let ghost before = views(actions@);
    let ghost all = views(delayed@);
    assert(before + replayed::<M::V>(all.take(0)) =~= before);
    let ghost mut done: int = 0;
    while delayed.len() > 0
        invariant
            0 <= done <= all.len(),
            views(delayed@) == all.skip(done),
            views(actions@) == before + replayed::<M::V>(all.take(done)),
        decreases delayed.len(),
    {
        proof {
            lemma_views_remove_first(delayed@);
            assert(views(delayed@).len() == delayed@.len());
        }
        let candidate = delayed.remove(0);
        let action: PeerAction<M> = PeerAction::AddIceCandidate(candidate.into_init());
        proof {
            lemma_views_push(actions@, action);
            assert(all.skip(done).len() > 0);
            assert(all.skip(done)[0] == all[done]);
            assert(all.skip(done).subrange(1, all.skip(done).len() as int) =~= all.skip(done + 1));
            assert((before + replayed::<M::V>(all.take(done))).push(action@) =~= before
                + replayed::<M::V>(all.take(done + 1)));
            done = done + 1;
        }
        actions.push(action);
    }
    assert(all.take(done) =~= all);
}

/// Appends to `actions` the sending of each of `held`, in order, and leaves
/// `held` empty.
pub(crate) fn flush<M: View>(held: &mut Vec<M>, actions: &mut Vec<PeerAction<M>>)
    ensures
        final(held)@.len() == 0,
        views(final(actions)@) == views(old(actions)@) + sent(views(old(held)@)),
{
    let ghost before = views(actions@);
    let ghost all = views(held@);
    assert(before + sent(all.take(0)) =~= before);
    let ghost mut done: int = 0;
    while held.len() > 0
        invariant
            0 <= done <= all.len(),
            views(held@) == all.skip(done),
            views(actions@) == before + sent(all.take(done)),
        decreases held.len(),
    {
        proof {
            lemma_views_remove_first(held@);
            assert(views(held@).len() == held@.len());
        }
        let message = held.remove(0);
        let action: PeerAction<M> = PeerAction::Send(message);
        proof {
            lemma_views_push(actions@, action);
            assert(all.skip(done).len() > 0);
            assert(all.skip(done)[0] == all[done]);
            assert(all.skip(done).subrange(1, all.skip(done).len() as int) =~= all.skip(done + 1));
            assert((before + sent(all.take(done))).push(action@) =~= before + sent(
                all.take(done + 1),
            ));
            done = done + 1;
        }
        actions.push(action);
    }
    assert(all.take(done) =~= all);
}

} // verus!
