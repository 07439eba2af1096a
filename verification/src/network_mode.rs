//! How a device takes part in a network: on its own, as the host of others, or
//! as a client of one.

use crate::text::same;
use vstd::prelude::*;

verus! {

/// How a device takes part in a network.
#[derive(Debug)]
pub struct NetworkModeConfig {
    /// `standalone`, `host` or `client`.
    pub mode: String,
    /// Where the host is; for a client only.
    pub host_address: Option<String>,
}

impl Default for NetworkModeConfig {
    /// On its own.
    fn default() -> (c: NetworkModeConfig)
        ensures
            c.mode@ == "standalone"@,
            c.host_address is None,
    {
        NetworkModeConfig { mode: "standalone".to_owned(), host_address: None }
    }
}

/// The stored mode of a device; on its own where nothing readable is stored.
pub fn load(stored: Option<NetworkModeConfig>) -> (c: NetworkModeConfig)
    ensures
        match stored {
            Some(s) => c == s,
            None => c.mode@ == "standalone"@ && c.host_address is None,
        },
{
    match stored {
        Some(s) => s,
        None => NetworkModeConfig { mode: "standalone".to_owned(), host_address: None },
    }
}

/// Whether the device has a database and a server of its own: all but a client.
pub fn runs_server(config: &NetworkModeConfig) -> (b: bool)
    ensures
        b == (config.mode@ != "client"@),
{
    !same(config.mode.as_str(), "client")
}

/// Where the server of a device listens: on every interface for a host, and on
/// the device itself for any other mode.
pub open spec fn address_of(mode: Seq<char>) -> Seq<char> {
    if mode == "host"@ {
        "0.0.0.0:8080"@
    } else {
        "127.0.0.1:8080"@
    }
}

/// Where the server of a device listens.
pub fn bind_address(config: &NetworkModeConfig) -> (s: &'static str)
    ensures
        s@ == address_of(config.mode@),
{
    if same(config.mode.as_str(), "host") {
        "0.0.0.0:8080"
    } else {
        "127.0.0.1:8080"
    }
}

/// Other devices reach this one only where it was made a host.
pub proof fn law_only_a_host_is_reachable(mode: Seq<char>)
    ensures
        address_of(mode) == "0.0.0.0:8080"@ <==> mode == "host"@,
{
    reveal_strlit("0.0.0.0:8080");
    reveal_strlit("127.0.0.1:8080");
    assert("0.0.0.0:8080"@.len() != "127.0.0.1:8080"@.len());
}

} // verus!
