//! Where the server listens.

use vstd::prelude::*;
use vstd::string::*;

verus! {

/// The address that the server binds unless it is told another.
pub const DEFAULT_ADDRESS: &'static str = "0.0.0.0";

/// The port that the server binds unless it is told another.
pub const DEFAULT_PORT: &'static str = "9010";

/// The server's options.
#[derive(Clone, Debug, PartialEq, Eq, Hash)]
pub struct Options {
    /// IP address to bind.
    pub address: String,
    /// Port number.
    pub port: String,
}

impl Default for Options {
    fn default() -> (options: Options)
        ensures
            options.address@ == DEFAULT_ADDRESS@,
            options.port@ == DEFAULT_PORT@,
    {
        Options { address: DEFAULT_ADDRESS.to_owned(), port: DEFAULT_PORT.to_owned() }
    }
}

impl Options {
    /// The socket address to bind: the address, a colon, the port.
    pub fn socket_address(&self) -> (addr: String)
        ensures
            addr@ == self.address@ + seq![':'] + self.port@,
    {
        proof {
            reveal_strlit(":");
        }
        let addr = self.address.clone().concat(":").concat(self.port.as_str());
        assert(":"@ =~= seq![':']);
        addr
    }
}

} // verus!
