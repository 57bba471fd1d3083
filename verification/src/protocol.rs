//! The signalling vocabulary shared with the peers.

use vstd::prelude::*;

verus! {

/// An SDP document; its text is opaque to the server.
#[derive(Clone, Debug, PartialEq, Eq, Hash)]
pub struct SessionDescription(pub String);

impl View for SessionDescription {
    type V = Seq<char>;

    open spec fn view(&self) -> Seq<char> {
        self.0@
    }
}

/// The characters of an optional text, where there is one.
pub open spec fn text_view(text: Option<String>) -> Option<Seq<char>> {
    match text {
        Some(t) => Some(t@),
        None => None,
    }
}

/// An ICE candidate as a peer sends it: the candidate line and what the peer
/// chose to say about its media section and user name fragment.
#[derive(Clone, Debug, PartialEq, Eq, Hash)]
pub struct IceCandidate {
    pub candidate: String,
    pub sdp_mid: Option<String>,
    pub sdp_mline_index: Option<u16>,
    pub username_fragment: Option<String>,
}

/// What an [`IceCandidate`] says, as mathematical values.
pub struct IceCandidateView {
    pub candidate: Seq<char>,
    pub sdp_mid: Option<Seq<char>>,
    pub sdp_mline_index: Option<u16>,
    pub username_fragment: Option<Seq<char>>,
}

impl View for IceCandidate {
    type V = IceCandidateView;

    open spec fn view(&self) -> IceCandidateView {
        IceCandidateView {
            candidate: self.candidate@,
            sdp_mid: text_view(self.sdp_mid),
            sdp_mline_index: self.sdp_mline_index,
            username_fragment: text_view(self.username_fragment),
        }
    }
}

/// The first message of every connection: the role the peer takes. The names
/// say what the peer is about to do: a peer that sends `StartSender` will send
/// media, one that sends `StartReceiver` will receive it.
#[derive(Clone, Copy, Debug, PartialEq, Eq, Hash, Structural)]
pub enum ClientMessage {
    StartReceiver,
    StartSender,
}

/// What a signalling message says. The four signalling vocabularies have the
/// same shape: a session description, a candidate, or the end of candidates.
pub enum SignalView {
    Description(Seq<char>),
    Candidate(IceCandidateView),
    AllCandidatesSent,
}

/// From a producing peer to the server.
#[derive(Clone, Debug, PartialEq, Eq, Hash)]
pub enum ClientSenderMessage {
    Offer(SessionDescription),
    IceCandidate(IceCandidate),
    AllIceCandidatesSent,
}

/// From a consuming peer to the server.
#[derive(Clone, Debug, PartialEq, Eq, Hash)]
pub enum ClientReceiverMessage {
    Answer(SessionDescription),
    IceCandidate(IceCandidate),
    AllIceCandidatesSent,
}

/// From the server to a producing peer.
#[derive(Clone, Debug, PartialEq, Eq, Hash)]
pub enum ServerReceiverMessage {
    Answer(SessionDescription),
    IceCandidate(IceCandidate),
    AllIceCandidatesSent,
}

/// From the server to a consuming peer.
#[derive(Clone, Debug, PartialEq, Eq, Hash)]
pub enum ServerSenderMessage {
    Offer(SessionDescription),
    IceCandidate(IceCandidate),
    AllIceCandidatesSent,
}

impl View for ClientSenderMessage {
    type V = SignalView;

    open spec fn view(&self) -> SignalView {
        match self {
            ClientSenderMessage::Offer(sdp) => SignalView::Description(sdp@),
            ClientSenderMessage::IceCandidate(c) => SignalView::Candidate(c@),
            ClientSenderMessage::AllIceCandidatesSent => SignalView::AllCandidatesSent,
        }
    }
}

impl View for ClientReceiverMessage {
    type V = SignalView;

    open spec fn view(&self) -> SignalView {
        match self {
            ClientReceiverMessage::Answer(sdp) => SignalView::Description(sdp@),
            ClientReceiverMessage::IceCandidate(c) => SignalView::Candidate(c@),
            ClientReceiverMessage::AllIceCandidatesSent => SignalView::AllCandidatesSent,
        }
    }
}

impl View for ServerReceiverMessage {
    type V = SignalView;

    open spec fn view(&self) -> SignalView {
        match self {
            ServerReceiverMessage::Answer(sdp) => SignalView::Description(sdp@),
            ServerReceiverMessage::IceCandidate(c) => SignalView::Candidate(c@),
            ServerReceiverMessage::AllIceCandidatesSent => SignalView::AllCandidatesSent,
        }
    }
}

impl View for ServerSenderMessage {
    type V = SignalView;

    open spec fn view(&self) -> SignalView {
        match self {
            ServerSenderMessage::Offer(sdp) => SignalView::Description(sdp@),
            ServerSenderMessage::IceCandidate(c) => SignalView::Candidate(c@),
            ServerSenderMessage::AllIceCandidatesSent => SignalView::AllCandidatesSent,
        }
    }
}

} // verus!
