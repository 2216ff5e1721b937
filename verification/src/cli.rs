//! The settings that the server is started with.

use vstd::prelude::*;
use crate::text::append;

verus! {

/// `host`, a colon and `port`: the address that a listener binds to.
pub open spec fn address_spec(host: Seq<char>, port: Seq<char>) -> Seq<char> {
    host + ":"@ + port
}

/// The settings of one server.
#[derive(Debug, PartialEq, Eq)]
pub struct Cli {
    /// Host that both listeners bind to.
    pub host: String,
    /// TCP port to listen on; `0` lets the system choose.
    pub port: String,
    /// WebSocket port to listen on; `0` lets the system choose.
    pub ws_port: String,
    /// Whether the WebSocket listener relays to the TCP listener.
    pub ws_enable: bool,
}

impl Cli {
    /// The address of the TCP listener.
    pub fn tcp_address(&self) -> (address: String)
        ensures
            address@ == address_spec(self.host@, self.port@),
    {
        let head = append(self.host.as_str(), ":");
        append(head.as_str(), self.port.as_str())
    }

    /// The address of the WebSocket listener.
    pub fn ws_address(&self) -> (address: String)
        ensures
            address@ == address_spec(self.host@, self.ws_port@),
    {
        let head = append(self.host.as_str(), ":");
        append(head.as_str(), self.ws_port.as_str())
    }
}

impl Default for Cli {
    /// Host `0.0.0.0`, TCP port `9999`, WebSocket port `9998`, relay off.
    fn default() -> (cli: Cli)
        ensures
            cli.host@ == "0.0.0.0"@,
            cli.port@ == "9999"@,
            cli.ws_port@ == "9998"@,
            !cli.ws_enable,
    {
        Cli {
            host: "0.0.0.0".to_string(),
            port: "9999".to_string(),
            ws_port: "9998".to_string(),
            ws_enable: false,
        }
    }
}

} // verus!
