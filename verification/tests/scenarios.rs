use relay_server::{
    Channel, ChannelId, Channels, ClientMessage, ClientReceiverMessage, ClientSenderMessage,
    DataChannelState, IceCandidate, IceCandidateInit, MediaAction, PeerAction, PumpAction,
    ReceiverAction, ReceiverState, SenderAction, SenderState, ServerReceiverMessage,
    ServerSenderMessage, Session, SessionDescription, Socket, SocketReceiver, SocketSender,
    WebSocketFrame, WebSocketReceiver, WebSocketSender, WireMessage,
};
use rtp::packet::Packet;
use webrtc_util::marshal::{Marshal, MarshalSize, Unmarshal};

fn sdp(text: &str) -> SessionDescription {
    SessionDescription(text.to_string())
}

fn local(n: u32) -> IceCandidateInit {
    IceCandidateInit {
        candidate: format!("candidate:{} 1 UDP 1 198.51.100.1 {} typ host", n, 6000 + n),
        sdp_mid: "0".to_string(),
        sdp_mline_index: 0,
        username_fragment: "srv".to_string(),
    }
}

fn remote(n: u32) -> IceCandidate {
    IceCandidate {
        candidate: format!("candidate:{} 1 UDP 1 192.0.2.1 {} typ host", n, 5000 + n),
        sdp_mid: Some("0".to_string()),
        sdp_mline_index: Some(0),
        username_fragment: None,
    }
}

/// A peer connection that records what it is asked and finds the local
/// candidates it was given while a local description is set.
struct MockPeerConnection {
    calls: Vec<String>,
    description: String,
    candidates: Vec<IceCandidateInit>,
    has_remote_description: bool,
}

impl MockPeerConnection {
    fn new(description: &str, candidates: Vec<IceCandidateInit>) -> Self {
        MockPeerConnection {
            calls: Vec::new(),
            description: description.to_string(),
            candidates,
            has_remote_description: false,
        }
    }
}

/// Performs `actions` for a producer's session in order, reports to the
/// controller what the mock answers, and returns the frames sent.
fn drive_producer(
    socket: &mut SocketReceiver,
    pc: &mut MockPeerConnection,
    actions: Vec<ReceiverAction>,
) -> Vec<WebSocketFrame> {
    let mut outbound = WebSocketSender::<ServerReceiverMessage>::new();
    let mut sent = Vec::new();
    let mut queue: std::collections::VecDeque<ReceiverAction> = actions.into();
    while let Some(action) = queue.pop_front() {
        match action {
            PeerAction::CreatePeerConnection(_) => pc.calls.push("new".to_string()),
            PeerAction::SetRemoteDescription(kind, sdp) => {
                pc.calls.push(format!("set_remote_description {:?} {}", kind, sdp.0));
                pc.has_remote_description = true;
                queue.extend(socket.webrtc_receiver.on_remote_description_set());
            },
            PeerAction::CreateAnswer => {
                pc.calls.push("create_answer".to_string());
                let answer = SessionDescription(pc.description.clone());
                queue.extend(socket.webrtc_receiver.on_answer_created(answer));
            },
            PeerAction::SetLocalDescription(kind, sdp) => {
                pc.calls.push(format!("set_local_description {:?} {}", kind, sdp.0));
                for candidate in std::mem::take(&mut pc.candidates) {
                    queue.extend(socket.webrtc_receiver.on_local_icecandidate(Some(candidate)));
                }
                queue.extend(socket.webrtc_receiver.on_local_description_set());
                queue.extend(socket.webrtc_receiver.on_local_icecandidate(None));
            },
            PeerAction::AddIceCandidate(init) => {
                assert!(pc.has_remote_description, "candidate before the remote description");
                pc.calls.push(format!("add_ice_candidate {}", init.candidate));
            },
            PeerAction::Send(message) => sent.push(outbound.send(message)),
            PeerAction::ClosePeerConnection => pc.calls.push("close".to_string()),
            PeerAction::CloseRelay => pc.calls.push("close_relay".to_string()),
            other => panic!("not asked of a producer's driver: {:?}", other),
        }
    }
    sent
}

/// The same for a consumer's session.
fn drive_consumer(
    socket: &mut SocketSender,
    pc: &mut MockPeerConnection,
    actions: Vec<SenderAction>,
) -> Vec<WebSocketFrame> {
    let mut outbound = WebSocketSender::<ServerSenderMessage>::new();
    let mut sent = Vec::new();
    let mut queue: std::collections::VecDeque<SenderAction> = actions.into();
    while let Some(action) = queue.pop_front() {
        match action {
            PeerAction::CreatePeerConnection(_) => pc.calls.push("new".to_string()),
            PeerAction::CreateDataChannel(label) => {
                pc.calls.push(format!("create_data_channel {}", label))
            },
            PeerAction::AddTrack(track) => pc.calls.push(format!(
                "add_track {} {} {}",
                track.mime_type, track.id, track.stream_id
            )),
            PeerAction::CreateOffer => {
                pc.calls.push("create_offer".to_string());
                let offer = SessionDescription(pc.description.clone());
                queue.extend(socket.webrtc_sender.on_offer_created(offer));
            },
            PeerAction::SetLocalDescription(kind, sdp) => {
                pc.calls.push(format!("set_local_description {:?} {}", kind, sdp.0));
                for candidate in std::mem::take(&mut pc.candidates) {
                    queue.extend(socket.webrtc_sender.on_local_icecandidate(Some(candidate)));
                }
                queue.extend(socket.webrtc_sender.on_local_description_set());
                queue.extend(socket.webrtc_sender.on_local_icecandidate(None));
            },
            PeerAction::SetRemoteDescription(kind, sdp) => {
                pc.calls.push(format!("set_remote_description {:?} {}", kind, sdp.0));
                pc.has_remote_description = true;
                queue.extend(socket.webrtc_sender.on_remote_description_set());
            },
            PeerAction::AddIceCandidate(init) => {
                assert!(pc.has_remote_description, "candidate before the remote description");
                pc.calls.push(format!("add_ice_candidate {}", init.candidate));
            },
            PeerAction::Send(message) => sent.push(outbound.send(message)),
            PeerAction::StartRelay => pc.calls.push("start_relay".to_string()),
            PeerAction::ClosePeerConnection => pc.calls.push("close".to_string()),
            other => panic!("not asked of a consumer's driver: {:?}", other),
        }
    }
    sent
}

fn accept(frame: Vec<u8>, channels: &mut Channels) -> Session {
    let mut hello = WebSocketReceiver::<ClientMessage>::new();
    let first = hello.recv(Some(WebSocketFrame::Binary(frame)));
    Socket::new().run(first, channels)
}

fn producer(channels: &mut Channels) -> (SocketReceiver, Option<Channel>, Vec<ReceiverAction>) {
    match accept(ClientMessage::StartSender.encode(), channels) {
        Session::Producer(socket, created, actions) => (socket, created, actions),
        other => panic!("not a producer session: {:?}", other),
    }
}

fn consumer(channels: &mut Channels) -> (SocketSender, Option<Channel>, Vec<SenderAction>) {
    match accept(ClientMessage::StartReceiver.encode(), channels) {
        Session::Consumer(socket, created, actions) => (socket, created, actions),
        other => panic!("not a consumer session: {:?}", other),
    }
}

fn from_producer(message: ClientSenderMessage) -> Option<ClientSenderMessage> {
    let mut inbound = WebSocketReceiver::<ClientSenderMessage>::new();
    inbound.recv(Some(WebSocketFrame::Binary(message.encode())))
}

fn from_consumer(message: ClientReceiverMessage) -> Option<ClientReceiverMessage> {
    let mut inbound = WebSocketReceiver::<ClientReceiverMessage>::new();
    inbound.recv(Some(WebSocketFrame::Binary(message.encode())))
}

fn to_producer(frames: Vec<WebSocketFrame>) -> Vec<ServerReceiverMessage> {
    frames
        .into_iter()
        .map(|frame| match frame {
            WebSocketFrame::Binary(data) => ServerReceiverMessage::decode(&data).unwrap(),
            other => panic!("not a binary frame: {:?}", other),
        })
        .collect()
}

fn to_consumer(frames: Vec<WebSocketFrame>) -> Vec<ServerSenderMessage> {
    frames
        .into_iter()
        .map(|frame| match frame {
            WebSocketFrame::Binary(data) => ServerSenderMessage::decode(&data).unwrap(),
            other => panic!("not a binary frame: {:?}", other),
        })
        .collect()
}

/// What the producer's side does with a packet read from the track.
fn marshal(packet: &Packet) -> (Vec<u8>, usize) {
    let mut buf = vec![0u8; packet.marshal_size()];
    let written = packet.marshal_to(&mut buf).unwrap();
    (buf, written)
}

/// What the consumer's side does with the bytes of a media frame.
fn unmarshal(bytes: &[u8]) -> Option<Packet> {
    let mut buf = bytes;
    Packet::unmarshal(&mut buf).ok()
}

fn rtp_bytes(sequence_number: u8, payload: &[u8]) -> Vec<u8> {
    let mut bytes = vec![0x80, 0x60, 0, sequence_number, 0, 0, 0, 1, 0, 0, 0, 2];
    bytes.extend_from_slice(payload);
    bytes
}

#[test]
fn happy_path() {
    let mut channels = Channels::new();

    // The producer connects, offers, and is answered.
    let (mut p, created, actions) = producer(&mut channels);
    let mut channel = created.expect("the producer came first");
    let mut p_pc = MockPeerConnection::new("v=0 answer", vec![local(1), local(2)]);
    assert!(drive_producer(&mut p, &mut p_pc, actions).is_empty());
    let offer = from_producer(ClientSenderMessage::Offer(sdp("v=0 offer")));
    let (actions, goes_on) = p.run(offer);
    assert!(goes_on);
    let replies = to_producer(drive_producer(&mut p, &mut p_pc, actions));
    assert_eq!(replies.len(), 4);
    assert_eq!(replies[0], ServerReceiverMessage::Answer(sdp("v=0 answer")));
    assert!(matches!(replies[1], ServerReceiverMessage::IceCandidate(_)));
    assert!(matches!(replies[2], ServerReceiverMessage::IceCandidate(_)));
    assert_eq!(replies[3], ServerReceiverMessage::AllIceCandidatesSent);
    assert_eq!(p.webrtc_receiver.state(), ReceiverState::LocalAnswered);

    // The consumer connects, is offered, and answers.
    let (mut c, created, actions) = consumer(&mut channels);
    assert!(created.is_none());
    assert_eq!(c.webrtc_sender.channel_id(), p.webrtc_receiver.channel_id());
    let mut c_pc = MockPeerConnection::new("v=0 server offer", vec![local(3)]);
    let offers = to_consumer(drive_consumer(&mut c, &mut c_pc, actions));
    assert_eq!(offers.len(), 3);
    assert_eq!(offers[0], ServerSenderMessage::Offer(sdp("v=0 server offer")));
    assert!(matches!(offers[1], ServerSenderMessage::IceCandidate(_)));
    assert_eq!(offers[2], ServerSenderMessage::AllIceCandidatesSent);
    assert_eq!(
        c_pc.calls,
        vec![
            "new",
            "create_data_channel data",
            "add_track video/VP8 video webrtc-rs",
            "create_offer",
            "set_local_description Offer v=0 server offer",
            "start_relay",
        ]
    );
    let answer = from_consumer(ClientReceiverMessage::Answer(sdp("v=0 client answer")));
    let (actions, goes_on) = c.run(answer);
    assert!(goes_on);
    assert!(drive_consumer(&mut c, &mut c_pc, actions).is_empty());
    assert_eq!(c.webrtc_sender.state(), SenderState::RemoteAnswered);

    // The relay was started: it finds nothing yet.
    assert_eq!(c.webrtc_sender.relay(&mut channel, DataChannelState::Open), PumpAction::Wait);

    // One packet on the producer's track appears on the consumer's.
    let injected = unmarshal(&rtp_bytes(7, &[0xca, 0xfe])).expect("an RTP packet");
    let (buf, written) = marshal(&injected);
    let media = p.webrtc_receiver.on_track(true).unwrap();
    assert!(media.on_packet(&mut channel, buf, written).is_some());
    match c.webrtc_sender.relay(&mut channel, DataChannelState::Open) {
        PumpAction::WriteMedia(bytes) => {
            assert_eq!(bytes, rtp_bytes(7, &[0xca, 0xfe]));
            match relay_server::WebRtcSender::on_unmarshal(unmarshal(&bytes)) {
                MediaAction::Write(packet) => assert_eq!(packet, injected),
                MediaAction::Skip => panic!("the packet was dropped"),
            }
        },
        other => panic!("no media: {:?}", other),
    }

    // A text on the producer's data channel appears on the consumer's.
    let data = p.webrtc_receiver.on_data_channel();
    let _ = data.on_message(&mut channel, b"hello".to_vec());
    assert_eq!(
        c.webrtc_sender.relay(&mut channel, DataChannelState::Open),
        PumpAction::SendData(b"hello".to_vec())
    );
}

#[test]
fn ice_before_sdp_in_a_session() {
    let mut channels = Channels::new();
    let (mut p, _, actions) = producer(&mut channels);
    let mut pc = MockPeerConnection::new("answer", Vec::new());
    let _ = drive_producer(&mut p, &mut pc, actions);
    for n in [1, 2] {
        let (actions, _) = p.run(from_producer(ClientSenderMessage::IceCandidate(remote(n))));
        assert!(drive_producer(&mut p, &mut pc, actions).is_empty());
    }
    assert_eq!(pc.calls, vec!["new"]);
    let (actions, _) = p.run(from_producer(ClientSenderMessage::Offer(sdp("offer"))));
    let replies = to_producer(drive_producer(&mut p, &mut pc, actions));
    assert_eq!(replies[0], ServerReceiverMessage::Answer(sdp("answer")));
    assert_eq!(
        pc.calls,
        vec![
            "new".to_string(),
            "set_remote_description Offer offer".to_string(),
            "create_answer".to_string(),
            "set_local_description Answer answer".to_string(),
            format!("add_ice_candidate {}", remote(1).candidate),
            format!("add_ice_candidate {}", remote(2).candidate),
        ]
    );
}

#[test]
fn a_packet_reaches_its_own_consumer_only() {
    let mut channels = Channels::new();
    let (p1, created1, _) = producer(&mut channels);
    let (p2, created2, _) = producer(&mut channels);
    let (c1, none1, _) = consumer(&mut channels);
    let (c2, none2, _) = consumer(&mut channels);
    assert!(none1.is_none() && none2.is_none());
    let mut channel1 = created1.unwrap();
    let mut channel2 = created2.unwrap();
    assert_eq!(p1.webrtc_receiver.channel_id(), c1.webrtc_sender.channel_id());
    assert_eq!(p2.webrtc_receiver.channel_id(), c2.webrtc_sender.channel_id());
    assert_eq!(channel1.channel_id(), ChannelId(0));
    assert_eq!(channel2.channel_id(), ChannelId(1));
    for channel in [&mut channel1, &mut channel2] {
        assert_eq!(c1.webrtc_sender.relay(channel, DataChannelState::Open) == PumpAction::Wait,
            channel.channel_id() == ChannelId(0));
    }
    assert_eq!(c2.webrtc_sender.relay(&mut channel2, DataChannelState::Open), PumpAction::Wait);
    let media = p2.webrtc_receiver.on_track(true).unwrap();
    let packet = rtp_bytes(1, &[1, 2, 3]);
    // P2's packet cannot enter the channel of P1 and C1
    assert_eq!(
        media.on_packet(&mut channel1, packet.clone(), packet.len()),
        Some(relay_server::SendOutcome::Foreign)
    );
    assert_eq!(
        media.on_packet(&mut channel2, packet.clone(), packet.len()),
        Some(relay_server::SendOutcome::Enqueued)
    );
    assert_eq!(c1.webrtc_sender.relay(&mut channel1, DataChannelState::Open), PumpAction::Wait);
    assert_eq!(c1.webrtc_sender.relay(&mut channel2, DataChannelState::Open), PumpAction::Stop);
    assert_eq!(
        c2.webrtc_sender.relay(&mut channel2, DataChannelState::Open),
        PumpAction::WriteMedia(packet)
    );
}

#[test]
fn producer_disconnect() {
    let mut channels = Channels::new();
    let (mut p, created, _) = producer(&mut channels);
    let (mut c, _, actions) = consumer(&mut channels);
    let mut channel = created.unwrap();
    let mut c_pc = MockPeerConnection::new("offer", Vec::new());
    let _ = drive_consumer(&mut c, &mut c_pc, actions);
    assert_eq!(c.webrtc_sender.relay(&mut channel, DataChannelState::Open), PumpAction::Wait);
    let data = p.webrtc_receiver.on_data_channel();
    let _ = data.on_message(&mut channel, b"bye".to_vec());
    // the producer's connection closes
    let (actions, goes_on) = p.run(None);
    assert!(!goes_on);
    for action in actions {
        if action == PeerAction::CloseRelay {
            assert!(p.webrtc_receiver.close_relay(&mut channel));
        }
    }
    assert_eq!(
        c.webrtc_sender.relay(&mut channel, DataChannelState::Open),
        PumpAction::SendData(b"bye".to_vec())
    );
    assert_eq!(c.webrtc_sender.relay(&mut channel, DataChannelState::Open), PumpAction::Stop);
    assert_eq!(channel.len(), 0);
    // nobody closed the consumer's peer connection
    assert!(!c_pc.calls.contains(&"close".to_string()));
    assert_eq!(c.webrtc_sender.state(), SenderState::LocalOffered);
}

#[test]
fn consumer_first() {
    let mut channels = Channels::new();
    let (mut c, created, actions) = consumer(&mut channels);
    let mut channel = created.expect("the consumer came first");
    let mut c_pc = MockPeerConnection::new("offer", Vec::new());
    // the offer does not wait for a producer
    let offers = to_consumer(drive_consumer(&mut c, &mut c_pc, actions));
    assert_eq!(offers[0], ServerSenderMessage::Offer(sdp("offer")));
    assert!(c_pc.calls.contains(&"start_relay".to_string()));
    // the relay idles
    for _ in 0..3 {
        assert_eq!(c.webrtc_sender.relay(&mut channel, DataChannelState::Open), PumpAction::Wait);
    }
    // the producer arrives and frames flow
    let (p, created, _) = producer(&mut channels);
    assert!(created.is_none());
    assert_eq!(p.webrtc_receiver.channel_id(), channel.channel_id());
    let _ = p.webrtc_receiver.on_data_channel().on_message(&mut channel, b"first".to_vec());
    assert_eq!(
        c.webrtc_sender.relay(&mut channel, DataChannelState::Open),
        PumpAction::SendData(b"first".to_vec())
    );
}

#[test]
fn media_before_the_consumer_is_not_kept() {
    let mut channels = Channels::new();
    let (p, created, _) = producer(&mut channels);
    let mut channel = created.unwrap();
    let media = p.webrtc_receiver.on_track(true).unwrap();
    for n in 0..1000u32 {
        let packet = rtp_bytes((n % 256) as u8, &[0; 100]);
        assert_eq!(
            media.on_packet(&mut channel, packet.clone(), packet.len()),
            Some(relay_server::SendOutcome::NoReceiver)
        );
    }
    assert_eq!(channel.len(), 0);
}

#[test]
fn media_sequence_is_kept_but_for_malformed_frames() {
    let mut channels = Channels::new();
    let (p, created, _) = producer(&mut channels);
    let (c, _, _) = consumer(&mut channels);
    let mut channel = created.unwrap();
    assert_eq!(c.webrtc_sender.relay(&mut channel, DataChannelState::Closed), PumpAction::Wait);
    let media = p.webrtc_receiver.on_track(true).unwrap();
    let mut emitted: Vec<Packet> = Vec::new();
    for n in 0..20u8 {
        let packet = unmarshal(&rtp_bytes(n, &[n, n, n])).unwrap();
        let (buf, written) = marshal(&packet);
        assert!(media.on_packet(&mut channel, buf, written).is_some());
        emitted.push(packet);
        if n % 5 == 0 {
            // something that is no RTP packet gets into the channel
            let sender = relay_server::ChannelSender::new(channel.channel_id());
            let _ = sender.send(&mut channel, relay_server::ChannelMessage::Media(vec![0x80, n]));
        }
    }
    let mut written: Vec<Packet> = Vec::new();
    let mut skipped = 0;
    loop {
        match c.webrtc_sender.relay(&mut channel, DataChannelState::Closed) {
            PumpAction::WriteMedia(bytes) => {
                match relay_server::WebRtcSender::on_unmarshal(unmarshal(&bytes)) {
                    MediaAction::Write(packet) => written.push(packet),
                    MediaAction::Skip => skipped += 1,
                }
            },
            PumpAction::Wait => break,
            other => panic!("unexpected: {:?}", other),
        }
    }
    assert_eq!(written, emitted);
    assert_eq!(skipped, 4);
}
