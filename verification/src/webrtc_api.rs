//! What the server asks of the WebRTC stack when it creates a peer connection.

use vstd::prelude::*;

use crate::views::views;

verus! {

/// The STUN server that every peer connection of the server uses.
pub const STUN_SERVER: &'static str = "stun:stun.l.google.com:19302";

/// One ICE server: the URLs under which it is reached.
#[derive(Clone, Debug, PartialEq, Eq, Hash)]
pub struct IceServer {
    pub urls: Vec<String>,
}

impl View for IceServer {
    type V = Seq<Seq<char>>;

    open spec fn view(&self) -> Seq<Seq<char>> {
        views(self.urls@)
    }
}

/// The configuration of a peer connection: its ICE servers.
#[derive(Clone, Debug, PartialEq, Eq, Hash)]
pub struct RtcConfiguration {
    pub ice_servers: Vec<IceServer>,
}

impl View for RtcConfiguration {
    type V = Seq<Seq<Seq<char>>>;

    open spec fn view(&self) -> Seq<Seq<Seq<char>>> {
        views(self.ice_servers@)
    }
}

/// The server's settings for the WebRTC stack.
#[derive(Clone, Copy, Debug)]
pub struct WebRtcApi;

impl WebRtcApi {
    /// The configuration of every peer connection: one STUN server, no TURN.
    pub open spec fn spec_default_config() -> Seq<Seq<Seq<char>>> {
        seq![seq![STUN_SERVER@]]
    }

    pub fn default_config() -> (config: RtcConfiguration)
        ensures
            config@ == Self::spec_default_config(),
    {
        let mut urls: Vec<String> = Vec::new();
        urls.push(STUN_SERVER.to_owned());
        let server = IceServer { urls };
        assert(server@ =~= seq![STUN_SERVER@]);
        let mut ice_servers: Vec<IceServer> = Vec::new();
        ice_servers.push(server);
        let config = RtcConfiguration { ice_servers };
        assert(config@ =~= Self::spec_default_config());
        config
    }
}

} // verus!
