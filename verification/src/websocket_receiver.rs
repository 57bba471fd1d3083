use core::marker::PhantomData;
use vstd::prelude::*;

use crate::wire::WireMessage;

verus! {

/// A frame of a WebSocket connection, as far as the server looks at it.
#[derive(Clone, Debug, PartialEq, Eq, Hash)]
pub enum WebSocketFrame {
    Text(String),
    Binary(Vec<u8>),
    Ping(Vec<u8>),
    Pong(Vec<u8>),
    Close,
    /// Any other frame.
    Raw,
}

/// The inbound half of a session: turns frames into messages of the
/// vocabulary `T` that the session expects.
#[derive(Debug)]
pub struct WebSocketReceiver<T> {
    _message: PhantomData<T>,
}

impl<T: WireMessage> WebSocketReceiver<T> {
    pub fn new() -> (receiver: WebSocketReceiver<T>) {
        WebSocketReceiver { _message: PhantomData }
    }

    /// The message of the session's next frame; `frame` is `None` where the
    /// connection gave no frame any more, or failed. A binary frame that
    /// begins with a message of the vocabulary gives that message. Everything
    /// else gives `None`, upon which the session ends: the end or failure of
    /// the connection, a close frame, a frame that is not binary, and a
    /// binary frame that says nothing in the vocabulary.
    pub fn recv(&mut self, frame: Option<WebSocketFrame>) -> (message: Option<T>)
        ensures
            match frame {
                Some(WebSocketFrame::Binary(data)) => match message {
                    Some(m) => T::parse(data@) == Some(m@),
                    None => T::parse(data@) is None,
                },
                _ => message is None,
            },
    {
        match frame {
            Some(WebSocketFrame::Binary(data)) => T::decode(data.as_slice()),
            _ => None,
        }
    }
}

} // verus!
