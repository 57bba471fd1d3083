//! Signalling and relay core of a pairwise WebRTC relay server.
//!
//! Each accepted connection declares a role, negotiates a peer connection with
//! the server, and is paired with one peer of the opposite role through a
//! relay channel. This crate holds the decisions of that server: the wire
//! format of the signalling messages, the rendezvous registry, the relay
//! channel with its rule of admission, and the two signalling state machines.
//!
//! Networking and the WebRTC stack itself are left to the caller, the driver.
//! A controller is told what happened (a message came, the peer connection
//! answered) and returns what is to be done, as a list of [`PeerAction`]s.
//! The driver performs the actions of a list in order, tells the controller
//! what the peer connection answered to each, and performs what the
//! controller returns upon that before it goes on. A driver that fails at an
//! action closes the controller and performs what that returns.
//!
//! Every exported function is verified against its contract; the functions
//! whose names begin with `law_` state what holds of the library as a whole.

pub mod action;
pub mod channel;
pub mod channel_message;
pub mod channel_receiver;
pub mod channel_sender;
pub mod channels;
pub mod options;
pub mod protocol;
pub mod socket;
pub mod socket_receiver;
pub mod socket_sender;
pub mod views;
pub mod webrtc_api;
pub mod webrtc_data_receiver;
pub mod webrtc_media_receiver;
pub mod webrtc_receiver;
pub mod webrtc_sender;
pub mod webrtc_utils;
pub mod websocket_receiver;
pub mod websocket_sender;
pub mod wire;

pub use action::{
    PeerAction, PeerActionView, PeerConnectionState, SdpKind, TrackSpec, TrackSpecView,
};
pub use channel::{Channel, ChannelId, ChannelView, Received, SendOutcome};
pub use channel_message::ChannelMessage;
pub use channel_receiver::ChannelReceiver;
pub use channel_sender::ChannelSender;
pub use channels::{Channels, ChannelsView, Claim, EndpointKind};
pub use options::{Options, DEFAULT_ADDRESS, DEFAULT_PORT};
pub use protocol::{
    ClientMessage, ClientReceiverMessage, ClientSenderMessage, IceCandidate, IceCandidateView,
    ServerReceiverMessage, ServerSenderMessage, SessionDescription, SignalView,
};
pub use socket::{Session, Socket};
pub use socket_receiver::SocketReceiver;
pub use socket_sender::SocketSender;
pub use webrtc_api::{IceServer, RtcConfiguration, WebRtcApi, STUN_SERVER};
pub use webrtc_data_receiver::WebRtcDataReceiver;
pub use webrtc_media_receiver::WebRtcMediaReceiver;
pub use webrtc_receiver::{
    ReceiverAction, ReceiverActionView, ReceiverEvent, ReceiverState, WebRtcReceiver,
    WebRtcReceiverView,
};
pub use webrtc_sender::{
    DataChannelState, MediaAction, PumpAction, SenderAction, SenderActionView, SenderEvent,
    SenderState, WebRtcSender, WebRtcSenderView, DATA_CHANNEL_LABEL, MIME_TYPE_VP8, STREAM_ID,
    TRACK_ID,
};
pub use webrtc_utils::{
    add_remote_icecandidate, send_local_icecandidate, IceCandidateInit, IceCandidateInitView,
};
pub use websocket_receiver::{WebSocketFrame, WebSocketReceiver};
pub use websocket_sender::WebSocketSender;
pub use wire::WireMessage;
