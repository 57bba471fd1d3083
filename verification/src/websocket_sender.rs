use core::marker::PhantomData;
use vstd::prelude::*;

use crate::websocket_receiver::WebSocketFrame;
use crate::wire::WireMessage;

verus! {

/// The outbound half of a session: turns messages of the vocabulary `T` into
/// frames. A session has one of them, and what it returns is sent in the
/// order returned, each frame whole.
#[derive(Debug)]
pub struct WebSocketSender<T> {
    _message: PhantomData<T>,
}

impl<T: WireMessage> WebSocketSender<T> {
    pub fn new() -> (sender: WebSocketSender<T>) {
        WebSocketSender { _message: PhantomData }
    }

    /// The frame that says `message`: a binary frame of the message's bytes.
    pub fn send(&mut self, message: T) -> (frame: WebSocketFrame)
        ensures
            frame matches WebSocketFrame::Binary(data) && data@ == T::wire(message@),
            T::parse(T::wire(message@)) == Some(message@),
    {
        let data = message.encode();
        proof {
            T::law_round_trip(message@, Seq::empty());
            assert(T::wire(message@) + Seq::<u8>::empty() =~= T::wire(message@));
        }
        WebSocketFrame::Binary(data)
    }
}

} // verus!
