use relay_server::{
    ChannelId, Channels, ClientMessage, ClientReceiverMessage, ClientSenderMessage, IceCandidate,
    IceCandidateInit, Options, PeerAction, ReceiverState, SdpKind, SenderState,
    ServerReceiverMessage, ServerSenderMessage, Session, SessionDescription, Socket,
    SocketReceiver, SocketSender, WebSocketFrame, WebSocketReceiver, WebSocketSender, WireMessage,
    DEFAULT_ADDRESS, DEFAULT_PORT,
};

fn sdp(text: &str) -> SessionDescription {
    SessionDescription(text.to_string())
}

fn candidate() -> IceCandidate {
    IceCandidate {
        candidate: "candidate:1".to_string(),
        sdp_mid: None,
        sdp_mline_index: None,
        username_fragment: None,
    }
}

#[test]
fn default_options() {
    let options = Options::default();
    assert_eq!(options.address, "0.0.0.0");
    assert_eq!(options.port, "9010");
    assert_eq!(DEFAULT_ADDRESS, "0.0.0.0");
    assert_eq!(DEFAULT_PORT, "9010");
    assert_eq!(options.socket_address(), "0.0.0.0:9010");
}

#[test]
fn socket_address_joins_address_and_port() {
    let options = Options { address: "127.0.0.1".to_string(), port: "8080".to_string() };
    assert_eq!(options.socket_address(), "127.0.0.1:8080");
    let options = Options { address: "".to_string(), port: "".to_string() };
    assert_eq!(options.socket_address(), ":");
}

#[test]
fn binary_frames_are_read() {
    let mut hello = WebSocketReceiver::<ClientMessage>::new();
    assert_eq!(
        hello.recv(Some(WebSocketFrame::Binary(vec![1, 0, 0, 0]))),
        Some(ClientMessage::StartSender)
    );
    assert_eq!(
        hello.recv(Some(WebSocketFrame::Binary(vec![0, 0, 0, 0]))),
        Some(ClientMessage::StartReceiver)
    );
    let mut inbound = WebSocketReceiver::<ClientSenderMessage>::new();
    let frame = WebSocketFrame::Binary(ClientSenderMessage::Offer(sdp("v=0")).encode());
    assert_eq!(inbound.recv(Some(frame)), Some(ClientSenderMessage::Offer(sdp("v=0"))));
}

#[test]
fn other_frames_end_the_session() {
    let mut inbound = WebSocketReceiver::<ClientReceiverMessage>::new();
    assert_eq!(inbound.recv(None), None);
    assert_eq!(inbound.recv(Some(WebSocketFrame::Close)), None);
    assert_eq!(inbound.recv(Some(WebSocketFrame::Text("hi".to_string()))), None);
    assert_eq!(inbound.recv(Some(WebSocketFrame::Ping(vec![2, 0, 0, 0]))), None);
    assert_eq!(inbound.recv(Some(WebSocketFrame::Pong(vec![2, 0, 0, 0]))), None);
    assert_eq!(inbound.recv(Some(WebSocketFrame::Raw)), None);
    assert_eq!(inbound.recv(Some(WebSocketFrame::Binary(Vec::new()))), None);
    assert_eq!(inbound.recv(Some(WebSocketFrame::Binary(vec![9, 9, 9, 9]))), None);
    // and the receiver still reads what can be read
    assert_eq!(
        inbound.recv(Some(WebSocketFrame::Binary(vec![2, 0, 0, 0]))),
        Some(ClientReceiverMessage::AllIceCandidatesSent)
    );
}

#[test]
fn outbound_messages_become_binary_frames() {
    let mut outbound = WebSocketSender::<ServerReceiverMessage>::new();
    assert_eq!(
        outbound.send(ServerReceiverMessage::Answer(sdp("ok"))),
        WebSocketFrame::Binary(vec![0, 0, 0, 0, 2, 0, 0, 0, 0, 0, 0, 0, b'o', b'k'])
    );
    assert_eq!(
        outbound.send(ServerReceiverMessage::AllIceCandidatesSent),
        WebSocketFrame::Binary(vec![2, 0, 0, 0])
    );
    let mut outbound = WebSocketSender::<ServerSenderMessage>::new();
    let frame = outbound.send(ServerSenderMessage::IceCandidate(candidate()));
    match frame {
        WebSocketFrame::Binary(data) => {
            assert_eq!(
                ServerSenderMessage::decode(&data),
                Some(ServerSenderMessage::IceCandidate(candidate()))
            );
        },
        other => panic!("not a binary frame: {:?}", other),
    }
}

#[test]
fn start_sender_begins_a_producer_session() {
    let mut channels = Channels::new();
    match Socket::new().run(Some(ClientMessage::StartSender), &mut channels) {
        Session::Producer(socket, created, actions) => {
            assert_eq!(socket.webrtc_receiver.channel_id(), ChannelId(0));
            assert_eq!(socket.webrtc_receiver.state(), ReceiverState::Fresh);
            assert_eq!(created.expect("nobody waited").channel_id(), ChannelId(0));
            assert_eq!(actions.len(), 1);
            assert!(matches!(actions[0], PeerAction::CreatePeerConnection(_)));
        },
        other => panic!("not a producer session: {:?}", other),
    }
    assert_eq!(channels.waiting_receivers(), 1);
    assert_eq!(channels.waiting_senders(), 0);
}

#[test]
fn start_receiver_begins_a_consumer_session() {
    let mut channels = Channels::new();
    match Socket::new().run(Some(ClientMessage::StartReceiver), &mut channels) {
        Session::Consumer(socket, created, actions) => {
            assert_eq!(socket.webrtc_sender.channel_id(), ChannelId(0));
            assert_eq!(socket.webrtc_sender.state(), SenderState::Fresh);
            assert!(created.is_some());
            assert_eq!(actions.len(), 4);
            assert_eq!(actions[3], PeerAction::CreateOffer);
        },
        other => panic!("not a consumer session: {:?}", other),
    }
    assert_eq!(channels.waiting_senders(), 1);
    assert_eq!(channels.waiting_receivers(), 0);
}

#[test]
fn garbage_first_frame() {
    let mut channels = Channels::new();
    let mut hello = WebSocketReceiver::<ClientMessage>::new();
    let first = hello.recv(Some(WebSocketFrame::Binary(vec![0xde, 0xad, 0xbe])));
    assert_eq!(first, None);
    assert!(matches!(Socket::new().run(first, &mut channels), Session::Closed));
    assert_eq!(channels.waiting_senders(), 0);
    assert_eq!(channels.waiting_receivers(), 0);
    // the next connection is served as if nothing had happened
    let mut hello = WebSocketReceiver::<ClientMessage>::new();
    let first = hello.recv(Some(WebSocketFrame::Binary(ClientMessage::StartSender.encode())));
    match Socket::new().run(first, &mut channels) {
        Session::Producer(socket, created, _) => {
            assert_eq!(socket.webrtc_receiver.channel_id(), ChannelId(0));
            assert!(created.is_some());
        },
        other => panic!("not a producer session: {:?}", other),
    }
}

#[test]
fn a_signalling_message_is_no_role_declaration() {
    let mut channels = Channels::new();
    let mut hello = WebSocketReceiver::<ClientMessage>::new();
    let frame = WebSocketFrame::Binary(ClientSenderMessage::AllIceCandidatesSent.encode());
    let first = hello.recv(Some(frame));
    assert_eq!(first, None);
    assert!(matches!(Socket::new().run(first, &mut channels), Session::Closed));
    let first = hello.recv(Some(WebSocketFrame::Close));
    assert!(matches!(Socket::new().run(first, &mut channels), Session::Closed));
}

#[test]
fn producer_session_turns() {
    let mut channels = Channels::new();
    let (mut socket, created, _) = SocketReceiver::new(&mut channels);
    assert!(created.is_some());
    let (actions, goes_on) = socket.run(Some(ClientSenderMessage::IceCandidate(candidate())));
    assert!(goes_on);
    assert!(actions.is_empty());
    let (actions, goes_on) = socket.run(Some(ClientSenderMessage::AllIceCandidatesSent));
    assert!(goes_on);
    assert!(actions.is_empty());
    let (actions, goes_on) = socket.run(Some(ClientSenderMessage::Offer(sdp("offer"))));
    assert!(goes_on);
    assert_eq!(actions, vec![PeerAction::SetRemoteDescription(SdpKind::Offer, sdp("offer"))]);
    let _ = socket.webrtc_receiver.on_remote_description_set();
    let (actions, goes_on) = socket.run(Some(ClientSenderMessage::IceCandidate(candidate())));
    assert!(goes_on);
    assert_eq!(
        actions,
        vec![PeerAction::AddIceCandidate(IceCandidateInit {
            candidate: "candidate:1".to_string(),
            sdp_mid: String::new(),
            sdp_mline_index: 0,
            username_fragment: String::new(),
        })]
    );
    let (actions, goes_on) = socket.run(None);
    assert!(!goes_on);
    assert_eq!(actions, vec![PeerAction::ClosePeerConnection, PeerAction::CloseRelay]);
    assert_eq!(socket.webrtc_receiver.state(), ReceiverState::Closed);
}

#[test]
fn consumer_session_turns() {
    let mut channels = Channels::new();
    let (mut socket, created, actions) = SocketSender::new(&mut channels);
    assert!(created.is_some());
    assert_eq!(actions.len(), 4);
    let _ = socket.webrtc_sender.on_offer_created(sdp("offer"));
    let _ = socket.webrtc_sender.on_local_description_set();
    let (actions, goes_on) = socket.run(Some(ClientReceiverMessage::IceCandidate(candidate())));
    assert!(goes_on);
    assert!(actions.is_empty());
    let (actions, goes_on) = socket.run(Some(ClientReceiverMessage::Answer(sdp("answer"))));
    assert!(goes_on);
    assert_eq!(actions, vec![PeerAction::SetRemoteDescription(SdpKind::Answer, sdp("answer"))]);
    let (actions, goes_on) = socket.run(Some(ClientReceiverMessage::AllIceCandidatesSent));
    assert!(goes_on);
    assert!(actions.is_empty());
    let (actions, goes_on) = socket.run(None);
    assert!(!goes_on);
    assert_eq!(actions, vec![PeerAction::ClosePeerConnection]);
    assert_eq!(socket.webrtc_sender.state(), SenderState::Closed);
}
