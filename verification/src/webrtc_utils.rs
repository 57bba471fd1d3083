//! The handling of ICE candidates that both controllers share.
//!
//! A peer connection takes remote candidates only once it has a remote
//! description, and the network does not keep candidates behind the
//! description they belong to. Candidates that come early wait, in order.

use vstd::prelude::*;

use crate::protocol::{text_view, IceCandidate, IceCandidateView};
use crate::views::{lemma_views_push, views};

verus! {

/// An ICE candidate in the form the peer connection takes and gives: every
/// field is present.
#[derive(Clone, Debug, PartialEq, Eq, Hash)]
pub struct IceCandidateInit {
    pub candidate: String,
    pub sdp_mid: String,
    pub sdp_mline_index: u16,
    pub username_fragment: String,
}

/// What an [`IceCandidateInit`] says, as mathematical values.
pub struct IceCandidateInitView {
    pub candidate: Seq<char>,
    pub sdp_mid: Seq<char>,
    pub sdp_mline_index: u16,
    pub username_fragment: Seq<char>,
}

impl View for IceCandidateInit {
    type V = IceCandidateInitView;

    open spec fn view(&self) -> IceCandidateInitView {
        IceCandidateInitView {
            candidate: self.candidate@,
            sdp_mid: self.sdp_mid@,
            sdp_mline_index: self.sdp_mline_index,
            username_fragment: self.username_fragment@,
        }
    }
}

/// What an optional candidate of the peer connection says, where there is one.
pub open spec fn init_view(candidate: Option<IceCandidateInit>) -> Option<IceCandidateInitView> {
    match candidate {
        Some(init) => Some(init@),
        None => None,
    }
}

/// A text that a peer left out counts as the empty text.
pub open spec fn text_or_empty(text: Option<Seq<char>>) -> Seq<char> {
    match text {
        Some(t) => t,
        None => Seq::empty(),
    }
}

/// A number that a peer left out counts as 0.
pub open spec fn index_or_zero(index: Option<u16>) -> u16 {
    match index {
        Some(i) => i,
        None => 0,
    }
}

/// The candidate that the peer connection is given for a candidate of a peer:
/// what the peer left out is empty, or 0.
pub open spec fn remote_candidate(candidate: IceCandidateView) -> IceCandidateInitView {
    IceCandidateInitView {
        candidate: candidate.candidate,
        sdp_mid: text_or_empty(candidate.sdp_mid),
        sdp_mline_index: index_or_zero(candidate.sdp_mline_index),
        username_fragment: text_or_empty(candidate.username_fragment),
    }
}

/// The candidate that a peer is sent for a candidate of the peer connection:
/// every field is said.
pub open spec fn local_candidate(candidate: IceCandidateInitView) -> IceCandidateView {
    IceCandidateView {
        candidate: candidate.candidate,
        sdp_mid: Some(candidate.sdp_mid),
        sdp_mline_index: Some(candidate.sdp_mline_index),
        username_fragment: Some(candidate.username_fragment),
    }
}

fn or_empty(text: Option<String>) -> (r: String)
    ensures
        r@ == text_or_empty(text_view(text)),
{
    match text {
        Some(t) => t,
        None => String::new(),
    }
}

impl IceCandidate {
    /// Fills in what the peer left out.
    pub fn into_init(self) -> (init: IceCandidateInit)
        ensures
            init@ == remote_candidate(self@),
    {
        IceCandidateInit {
            candidate: self.candidate,
            sdp_mid: or_empty(self.sdp_mid),
            sdp_mline_index: match self.sdp_mline_index {
                Some(i) => i,
                None => 0,
            },
            username_fragment: or_empty(self.username_fragment),
        }
    }
}

impl IceCandidateInit {
    /// Says every field.
    pub fn into_candidate(self) -> (candidate: IceCandidate)
        ensures
            candidate@ == local_candidate(self@),
            candidate == (IceCandidate {
                candidate: self.candidate,
                sdp_mid: Some(self.sdp_mid),
                sdp_mline_index: Some(self.sdp_mline_index),
                username_fragment: Some(self.username_fragment),
            }),
    {
        IceCandidate {
            candidate: self.candidate,
            sdp_mid: Some(self.sdp_mid),
            sdp_mline_index: Some(self.sdp_mline_index),
            username_fragment: Some(self.username_fragment),
        }
    }
}

/// Decides what to do with a candidate of the peer. With a remote description
/// set, the candidate goes to the peer connection: it is returned, filled in.
/// Without one it joins `delayed` as its last, and nothing is returned.
pub fn add_remote_icecandidate(
    has_remote_description: bool,
    candidate: IceCandidate,
    delayed: &mut Vec<IceCandidate>,
) -> (forward: Option<IceCandidateInit>)
    ensures
        forward is Some <==> has_remote_description,
        forward matches Some(init) ==> init@ == remote_candidate(candidate@),
        has_remote_description ==> final(delayed)@ == old(delayed)@,
        !has_remote_description ==> final(delayed)@ == old(delayed)@.push(candidate),
        !has_remote_description ==> views(final(delayed)@) == views(old(delayed)@).push(
            candidate@,
        ),
{
    if has_remote_description {
        Some(candidate.into_init())
    } else {
        proof {
            lemma_views_push(delayed@, candidate);
        }
        delayed.push(candidate);
        None
    }
}

/// What a peer is told of the peer connection's own candidates: the candidate
/// with every field said, or, where the peer connection reports `None`, that
/// no more will come (the result is `None` then).
pub fn send_local_icecandidate(ice_candidate: Option<IceCandidateInit>) -> (message: Option<
    IceCandidate,
>)
    ensures
        match ice_candidate {
            Some(init) => message matches Some(candidate) && candidate@ == local_candidate(init@),
            None => message is None,
        },
{
    match ice_candidate {
        Some(init) => Some(init.into_candidate()),
        None => None,
    }
}

/// Filling in and then saying every field keeps the candidate line and turns
/// each field that was left out into an empty one.
pub proof fn law_candidate_conversions(candidate: IceCandidateView)
    ensures
        local_candidate(remote_candidate(candidate)).candidate == candidate.candidate,
        local_candidate(remote_candidate(candidate)).sdp_mid == Some(
            text_or_empty(candidate.sdp_mid),
        ),
        local_candidate(remote_candidate(candidate)).sdp_mline_index == Some(
            index_or_zero(candidate.sdp_mline_index),
        ),
        local_candidate(remote_candidate(candidate)).username_fragment == Some(
            text_or_empty(candidate.username_fragment),
        ),
        candidate.sdp_mid is Some && candidate.sdp_mline_index is Some
            && candidate.username_fragment is Some ==> local_candidate(remote_candidate(candidate))
            == candidate,
{
}

} // verus!
