use relay_server::{
    Channel, ChannelId, ChannelMessage, ChannelReceiver, ChannelSender, DataChannelState,
    IceCandidate, IceCandidateInit, IceServer, MediaAction, PeerAction, PeerConnectionState,
    PumpAction, RtcConfiguration, SdpKind, SendOutcome, SenderAction, SenderState,
    ServerSenderMessage, SessionDescription, TrackSpec, WebRtcApi, WebRtcSender,
    DATA_CHANNEL_LABEL, MIME_TYPE_VP8, STREAM_ID, STUN_SERVER, TRACK_ID,
};

fn sdp(text: &str) -> SessionDescription {
    SessionDescription(text.to_string())
}

fn remote(n: u32) -> IceCandidate {
    IceCandidate {
        candidate: format!("candidate:{}", n),
        sdp_mid: Some("0".to_string()),
        sdp_mline_index: None,
        username_fragment: Some("peer".to_string()),
    }
}

fn remote_init(n: u32) -> IceCandidateInit {
    IceCandidateInit {
        candidate: format!("candidate:{}", n),
        sdp_mid: "0".to_string(),
        sdp_mline_index: 0,
        username_fragment: "peer".to_string(),
    }
}

fn local(n: u32) -> IceCandidateInit {
    IceCandidateInit {
        candidate: format!("local:{}", n),
        sdp_mid: "".to_string(),
        sdp_mline_index: 1,
        username_fragment: "".to_string(),
    }
}

fn local_message(n: u32) -> ServerSenderMessage {
    ServerSenderMessage::IceCandidate(IceCandidate {
        candidate: format!("local:{}", n),
        sdp_mid: Some("".to_string()),
        sdp_mline_index: Some(1),
        username_fragment: Some("".to_string()),
    })
}

fn begin(id: u32) -> WebRtcSender {
    let (sender, actions) = WebRtcSender::new(ChannelReceiver::new(ChannelId(id)));
    assert_eq!(
        actions,
        vec![
            PeerAction::CreatePeerConnection(RtcConfiguration {
                ice_servers: vec![IceServer {
                    urls: vec!["stun:stun.l.google.com:19302".to_string()]
                }],
            }),
            PeerAction::CreateDataChannel("data".to_string()),
            PeerAction::AddTrack(TrackSpec {
                mime_type: "video/VP8".to_string(),
                id: "video".to_string(),
                stream_id: "webrtc-rs".to_string(),
            }),
            PeerAction::CreateOffer,
        ]
    );
    assert_eq!(sender.state(), SenderState::Fresh);
    assert_eq!(sender.channel_id(), ChannelId(id));
    sender
}

fn none() -> Vec<SenderAction> {
    Vec::new()
}

#[test]
fn constants_of_the_setup() {
    assert_eq!(STUN_SERVER, "stun:stun.l.google.com:19302");
    assert_eq!(DATA_CHANNEL_LABEL, "data");
    assert_eq!(MIME_TYPE_VP8, "video/VP8");
    assert_eq!(TRACK_ID, "video");
    assert_eq!(STREAM_ID, "webrtc-rs");
    let config = WebRtcApi::default_config();
    assert_eq!(config.ice_servers.len(), 1);
    assert_eq!(config.ice_servers[0].urls, vec!["stun:stun.l.google.com:19302".to_string()]);
}

#[test]
fn offer_is_made_and_answered() {
    let mut s = begin(2);
    assert_eq!(
        s.on_offer_created(sdp("v=0 offer")),
        vec![PeerAction::SetLocalDescription(SdpKind::Offer, sdp("v=0 offer"))]
    );
    assert_eq!(s.state(), SenderState::Fresh);
    assert_eq!(
        s.on_local_description_set(),
        vec![PeerAction::Send(ServerSenderMessage::Offer(sdp("v=0 offer"))), PeerAction::StartRelay]
    );
    assert_eq!(s.state(), SenderState::LocalOffered);
    assert_eq!(
        s.on_answer(sdp("v=0 answer")),
        vec![PeerAction::SetRemoteDescription(SdpKind::Answer, sdp("v=0 answer"))]
    );
    assert_eq!(s.state(), SenderState::LocalOffered);
    assert_eq!(s.on_remote_description_set(), none());
    assert_eq!(s.state(), SenderState::RemoteAnswered);
    assert_eq!(s.on_peer_connection_state_change(PeerConnectionState::Connected), none());
    assert_eq!(s.state(), SenderState::Connected);
}

#[test]
fn candidates_before_the_answer_wait_in_order() {
    let mut s = begin(0);
    assert_eq!(s.on_remote_icecandidate(remote(1)), none());
    let _ = s.on_offer_created(sdp("offer"));
    let _ = s.on_local_description_set();
    assert_eq!(s.on_remote_icecandidate(remote(2)), none());
    assert_eq!(s.on_remote_icecandidate(remote(3)), none());
    assert_eq!(
        s.on_answer(sdp("answer")),
        vec![PeerAction::SetRemoteDescription(SdpKind::Answer, sdp("answer"))]
    );
    assert_eq!(s.on_remote_icecandidate(remote(4)), none());
    assert_eq!(
        s.on_remote_description_set(),
        vec![
            PeerAction::AddIceCandidate(remote_init(1)),
            PeerAction::AddIceCandidate(remote_init(2)),
            PeerAction::AddIceCandidate(remote_init(3)),
            PeerAction::AddIceCandidate(remote_init(4)),
        ]
    );
    assert_eq!(s.on_remote_icecandidate(remote(5)), vec![PeerAction::AddIceCandidate(remote_init(5))]);
    assert_eq!(s.on_remote_description_set(), none());
    assert_eq!(s.on_all_remote_icecandidates_sent(), none());
}

#[test]
fn offer_goes_out_before_local_candidates() {
    let mut s = begin(0);
    let _ = s.on_offer_created(sdp("offer"));
    assert_eq!(s.on_local_icecandidate(Some(local(1))), none());
    assert_eq!(s.on_local_icecandidate(None), none());
    assert_eq!(
        s.on_local_description_set(),
        vec![
            PeerAction::Send(ServerSenderMessage::Offer(sdp("offer"))),
            PeerAction::Send(local_message(1)),
            PeerAction::Send(ServerSenderMessage::AllIceCandidatesSent),
            PeerAction::StartRelay,
        ]
    );
    assert_eq!(s.on_local_icecandidate(Some(local(2))), vec![PeerAction::Send(local_message(2))]);
    assert_eq!(
        s.on_local_icecandidate(None),
        vec![PeerAction::Send(ServerSenderMessage::AllIceCandidatesSent)]
    );
}

#[test]
fn consumer_reports_out_of_turn_are_ignored() {
    let mut s = begin(0);
    assert_eq!(s.on_local_description_set(), none());
    assert_eq!(s.on_remote_description_set(), none());
    assert_eq!(s.state(), SenderState::Fresh);
    let _ = s.on_offer_created(sdp("offer"));
    let _ = s.on_local_description_set();
    // a second offer is not made
    assert_eq!(s.on_offer_created(sdp("again")), none());
    assert_eq!(s.on_local_description_set(), none());
    assert_eq!(s.on_peer_connection_state_change(PeerConnectionState::Connected), none());
    assert_eq!(s.state(), SenderState::LocalOffered);
}

#[test]
fn consumer_close_tears_down_once_and_silences() {
    let mut s = begin(0);
    let _ = s.on_offer_created(sdp("offer"));
    let _ = s.on_local_description_set();
    assert_eq!(s.on_remote_icecandidate(remote(1)), none());
    assert_eq!(s.close(), vec![PeerAction::ClosePeerConnection]);
    assert_eq!(s.state(), SenderState::Closed);
    assert_eq!(s.close(), none());
    assert_eq!(s.on_offer_created(sdp("offer")), none());
    assert_eq!(s.on_local_description_set(), none());
    assert_eq!(s.on_answer(sdp("answer")), none());
    assert_eq!(s.on_remote_description_set(), none());
    assert_eq!(s.on_remote_icecandidate(remote(2)), none());
    assert_eq!(s.on_local_icecandidate(Some(local(1))), none());
    assert_eq!(s.on_all_remote_icecandidates_sent(), none());
    assert_eq!(s.on_peer_connection_state_change(PeerConnectionState::Failed), none());
    assert_eq!(s.state(), SenderState::Closed);
}

#[test]
fn failure_of_the_peer_connection_ends_the_consumer_session() {
    let mut s = begin(0);
    assert_eq!(
        s.on_peer_connection_state_change(PeerConnectionState::Failed),
        vec![PeerAction::ClosePeerConnection]
    );
    assert_eq!(s.state(), SenderState::Closed);
    let mut s = begin(0);
    assert_eq!(s.on_peer_connection_state_change(PeerConnectionState::Disconnected), none());
    assert_eq!(s.state(), SenderState::Fresh);
}

#[test]
fn relay_moves_frames_by_kind() {
    let s = begin(1);
    let mut channel = Channel::new(ChannelId(1));
    let writer = ChannelSender::new(ChannelId(1));
    assert_eq!(s.relay(&mut channel, DataChannelState::Connecting), PumpAction::Wait);
    assert!(channel.has_receiver());
    assert_eq!(writer.send(&mut channel, ChannelMessage::Data(b"early".to_vec())), SendOutcome::Enqueued);
    assert_eq!(writer.send(&mut channel, ChannelMessage::Media(vec![0x80, 0x60])), SendOutcome::Enqueued);
    assert_eq!(writer.send(&mut channel, ChannelMessage::Data(b"hello".to_vec())), SendOutcome::Enqueued);
    assert_eq!(writer.send(&mut channel, ChannelMessage::Data(b"\0hello".to_vec())), SendOutcome::Enqueued);
    // the data channel is not open yet: the frame is dropped, not kept
    assert_eq!(s.relay(&mut channel, DataChannelState::Connecting), PumpAction::Skip);
    // media does not wait for the data channel
    assert_eq!(s.relay(&mut channel, DataChannelState::Connecting), PumpAction::WriteMedia(vec![0x80, 0x60]));
    assert_eq!(s.relay(&mut channel, DataChannelState::Open), PumpAction::SendData(b"hello".to_vec()));
    assert_eq!(s.relay(&mut channel, DataChannelState::Open), PumpAction::SendData(b"\0hello".to_vec()));
    assert_eq!(s.relay(&mut channel, DataChannelState::Open), PumpAction::Wait);
    assert_eq!(s.state(), SenderState::Fresh);
}

#[test]
fn data_is_sent_only_on_an_open_data_channel() {
    let s = begin(1);
    let writer = ChannelSender::new(ChannelId(1));
    for state in [
        DataChannelState::Unspecified,
        DataChannelState::Connecting,
        DataChannelState::Closing,
        DataChannelState::Closed,
    ] {
        let mut channel = Channel::new(ChannelId(1));
        assert_eq!(s.relay(&mut channel, state), PumpAction::Wait);
        let _ = writer.send(&mut channel, ChannelMessage::Data(vec![1, 2, 3]));
        assert_eq!(s.relay(&mut channel, state), PumpAction::Skip);
        assert_eq!(channel.len(), 0);
    }
}

#[test]
fn relay_stops_when_the_producer_is_gone() {
    let mut s = begin(1);
    let _ = s.on_offer_created(sdp("offer"));
    let _ = s.on_local_description_set();
    let mut channel = Channel::new(ChannelId(1));
    let writer = ChannelSender::new(ChannelId(1));
    assert_eq!(s.relay(&mut channel, DataChannelState::Open), PumpAction::Wait);
    let _ = writer.send(&mut channel, ChannelMessage::Media(vec![9]));
    assert!(writer.close(&mut channel));
    assert_eq!(s.relay(&mut channel, DataChannelState::Open), PumpAction::WriteMedia(vec![9]));
    assert_eq!(s.relay(&mut channel, DataChannelState::Open), PumpAction::Stop);
    assert_eq!(s.relay(&mut channel, DataChannelState::Open), PumpAction::Stop);
    // the consumer's session goes on
    assert_eq!(s.state(), SenderState::LocalOffered);
    assert_eq!(
        s.on_answer(sdp("answer")),
        vec![PeerAction::SetRemoteDescription(SdpKind::Answer, sdp("answer"))]
    );
}

#[test]
fn relay_from_a_foreign_channel_stops() {
    let s = begin(1);
    let mut other = Channel::new(ChannelId(2));
    assert_eq!(s.relay(&mut other, DataChannelState::Open), PumpAction::Stop);
    assert!(!other.has_receiver());
}

#[test]
fn malformed_media_costs_one_frame() {
    assert_eq!(WebRtcSender::on_unmarshal(Some(17u8)), MediaAction::Write(17u8));
    assert_eq!(WebRtcSender::on_unmarshal(None::<u8>), MediaAction::Skip);
    let s = begin(1);
    let mut channel = Channel::new(ChannelId(1));
    let writer = ChannelSender::new(ChannelId(1));
    assert_eq!(s.relay(&mut channel, DataChannelState::Open), PumpAction::Wait);
    let _ = writer.send(&mut channel, ChannelMessage::Media(vec![1]));
    let _ = writer.send(&mut channel, ChannelMessage::Media(vec![0x80, 0x60, 0, 1, 0, 0, 0, 2, 0, 0, 0, 3]));
    assert_eq!(s.relay(&mut channel, DataChannelState::Open), PumpAction::WriteMedia(vec![1]));
    // whatever the first frame was, the second follows
    assert_eq!(
        s.relay(&mut channel, DataChannelState::Open),
        PumpAction::WriteMedia(vec![0x80, 0x60, 0, 1, 0, 0, 0, 2, 0, 0, 0, 3])
    );
}
