//! The dispatcher: the first message of a connection says which role the peer
//! takes, and with it which session the connection becomes.

use vstd::prelude::*;

use crate::channel::{Channel, ChannelView};
use crate::channels::{Channels, EndpointKind};
use crate::protocol::ClientMessage;
use crate::socket_receiver::SocketReceiver;
use crate::socket_sender::SocketSender;
use crate::views::views;
use crate::webrtc_receiver::{ReceiverAction, WebRtcReceiverView};
use crate::webrtc_sender::{SenderAction, WebRtcSenderView};

verus! {

/// A connection that has not declared its role yet.
#[derive(Debug)]
pub struct Socket;

/// What a connection has become. With a session come the relay channel, if
/// the session's claim created it, and what the driver is asked to do first.
#[derive(Debug)]
pub enum Session {
    /// The peer sends media: the server receives it.
    Producer(SocketReceiver, Option<Channel>, Vec<ReceiverAction>),
    /// The peer receives media: the server sends it.
    Consumer(SocketSender, Option<Channel>, Vec<SenderAction>),
    /// The peer declared no role: the connection is to be closed.
    Closed,
}

/// The endpoint that a peer of the declared role is handed.
pub open spec fn endpoint_of(hello: ClientMessage) -> EndpointKind {
    match hello {
        ClientMessage::StartSender => EndpointKind::Sender,
        ClientMessage::StartReceiver => EndpointKind::Receiver,
    }
}

impl Socket {
    pub fn new() -> (socket: Socket) {
        Socket
    }

    /// Turns the connection into a session. `hello` is what the first frame
    /// of the connection said, `None` where it was no role declaration. A peer
    /// that declares `StartSender` produces: it is handed the producer's
    /// endpoint of a relay channel, and the server answers its offer. A peer
    /// that declares `StartReceiver` consumes: it is handed the consumer's
    /// endpoint, and the server makes it an offer. Without a declaration the
    /// connection is closed and the registry is left alone.
    pub fn run(self, hello: Option<ClientMessage>, channels: &mut Channels) -> (session: Session)
        ensures
            old(channels)@.wf() ==> final(channels)@.wf(),
            match hello {
                None => session is Closed && final(channels)@ == old(channels)@,
                Some(role) => {
                    &&& final(channels)@ == old(channels)@.claim(endpoint_of(role))
                    &&& match session {
                        Session::Producer(socket, created, actions) => {
                            &&& role == ClientMessage::StartSender
                            &&& socket.webrtc_receiver@ == WebRtcReceiverView::fresh(
                                old(channels)@.claimed(EndpointKind::Sender),
                            )
                            &&& created is Some <==> !old(channels)@.partner_waits(
                                EndpointKind::Sender,
                            )
                            &&& created matches Some(channel) ==> channel@ == ChannelView::fresh(
                                old(channels)@.claimed(EndpointKind::Sender),
                            )
                            &&& views(actions@) == WebRtcReceiverView::setup()
                        },
                        Session::Consumer(socket, created, actions) => {
                            &&& role == ClientMessage::StartReceiver
                            &&& socket.webrtc_sender@ == WebRtcSenderView::fresh(
                                old(channels)@.claimed(EndpointKind::Receiver),
                            )
                            &&& created is Some <==> !old(channels)@.partner_waits(
                                EndpointKind::Receiver,
                            )
                            &&& created matches Some(channel) ==> channel@ == ChannelView::fresh(
                                old(channels)@.claimed(EndpointKind::Receiver),
                            )
                            &&& views(actions@) == WebRtcSenderView::setup()
                        },
                        Session::Closed => false,
                    }
                },
            },
    {
        match hello {
            Some(ClientMessage::StartSender) => {
                let (socket, created, actions) = SocketReceiver::new(channels);
                Session::Producer(socket, created, actions)
            },
            Some(ClientMessage::StartReceiver) => {
                let (socket, created, actions) = SocketSender::new(channels);
                Session::Consumer(socket, created, actions)
            },
            None => Session::Closed,
        }
    }
}

} // verus!
