use vstd::prelude::*;

verus! {

/// A frame on a relay channel: the bytes of one data-channel message, or of
/// one RTP packet.
#[derive(Clone, Debug, PartialEq, Eq, Hash)]
pub enum ChannelMessage {
    Data(Vec<u8>),
    Media(Vec<u8>),
}

} // verus!
