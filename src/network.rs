//! Networks, their names, default ports and currency codes.
use vstd::prelude::*;
use crate::text::same_text;

verus! {

/// The Bitcoin networks a wallet can live on.
#[derive(Clone, Copy, Debug, PartialEq, Eq, Structural)]
pub enum Network {
    Bitcoin,
    Testnet,
    Signet,
    Regtest,
}

/// The network names accepted in the host's options.
#[derive(Clone, Copy, Debug, PartialEq, Eq, Structural)]
pub enum WDNetwork {
    Mainnet,
    Testnet,
    Regtest,
    Signet,
    Mutinynet,
}

/// Why a network name could not be read.
#[derive(Debug)]
pub enum NetworkError {
    /// No network was given.
    Missing,
    /// The name is not one of the known networks.
    Unknown(String),
}

/// The network a name stands for; `mutinynet` is a signet.
pub open spec fn network_named(s: Seq<char>) -> Option<Network> {
    if s == "bitcoin"@ {
        Some(Network::Bitcoin)
    } else if s == "testnet"@ {
        Some(Network::Testnet)
    } else if s == "signet"@ {
        Some(Network::Signet)
    } else if s == "regtest"@ {
        Some(Network::Regtest)
    } else if s == "mutinynet"@ {
        Some(Network::Signet)
    } else {
        None
    }
}

/// The default RPC port of the full node on a network.
pub open spec fn default_port(network: Seq<char>) -> u16 {
    if network == "regtest"@ {
        18443
    } else if network == "signet"@ || network == "mutinynet"@ {
        38332
    } else if network == "testnet"@ {
        18332
    } else {
        8332
    }
}

/// The port used: the explicit one (as its low 16 bits) or the network's default.
pub open spec fn port_for(port_opt: Option<i64>, network: Seq<char>) -> u16 {
    match port_opt {
        Some(p) => p as u16,
        None => default_port(network),
    }
}

/// Resolves the RPC port from an explicit option or the network's default.
pub fn resolve_port(port_opt: Option<i64>, network: &str) -> (r: u16)
    ensures
        r == port_for(port_opt, network@),
{
    match port_opt {
        Some(p) => p as u16,
        None => {
            if same_text(network, "regtest") {
                18443
            } else if same_text(network, "signet") || same_text(network, "mutinynet") {
                38332
            } else if same_text(network, "testnet") {
                18332
            } else {
                8332
            }
        },
    }
}

/// The currency code of a network.
pub open spec fn currency_of(network: Network) -> Seq<char> {
    match network {
        Network::Bitcoin => "bc"@,
        Network::Regtest => "bcrt"@,
        Network::Signet => "tbs"@,
        Network::Testnet => "tb"@,
    }
}

/// The currency code that events on `network` carry.
pub fn get_currency(network: Network) -> (r: String)
    ensures
        r@ == currency_of(network),
{
    match network {
        Network::Bitcoin => "bc".to_owned(),
        Network::Regtest => "bcrt".to_owned(),
        Network::Signet => "tbs".to_owned(),
        Network::Testnet => "tb".to_owned(),
    }
}

/// Reads a network name; `mutinynet` reads as signet.
pub fn parse_network(network: &Option<String>) -> (r: Result<Network, NetworkError>)
    ensures
        network is None ==> r is Err && r->Err_0 is Missing,
        network is Some ==> match network_named(network->0@) {
            Some(net) => r == Ok::<Network, NetworkError>(net),
            None => r is Err && r->Err_0 is Unknown && r->Err_0->Unknown_0@ == network->0@,
        },
{
    match network {
        None => Err(NetworkError::Missing),
        Some(n) => {
            let s = n.as_str();
            if same_text(s, "bitcoin") {
                Ok(Network::Bitcoin)
            } else if same_text(s, "testnet") {
                Ok(Network::Testnet)
            } else if same_text(s, "signet") {
                Ok(Network::Signet)
            } else if same_text(s, "regtest") {
                Ok(Network::Regtest)
            } else if same_text(s, "mutinynet") {
                Ok(Network::Signet)
            } else {
                Err(NetworkError::Unknown(n.clone()))
            }
        },
    }
}

/// The currency code of the network named by `network`.
pub fn parse_currency(network: &Option<String>) -> (r: Result<String, NetworkError>)
    ensures
        network is None ==> r is Err && r->Err_0 is Missing,
        network is Some ==> match network_named(network->0@) {
            Some(net) => r is Ok && r->Ok_0@ == currency_of(net),
            None => r is Err && r->Err_0 is Unknown && r->Err_0->Unknown_0@ == network->0@,
        },
{
    match parse_network(network) {
        Ok(net) => Ok(get_currency(net)),
        Err(e) => Err(e),
    }
}

/// Whether `network` is one of the names an explorer is known for.
pub open spec fn has_esplora(network: Seq<char>) -> bool {
    network == "bitcoin"@ || network == "mainnet"@ || network == "testnet"@ || network
        == "regtest"@ || network == "mutinynet"@ || network == "signet"@
}

/// The block explorer API for a network.
pub open spec fn esplora_url(network: Seq<char>) -> Seq<char> {
    if network == "bitcoin"@ || network == "mainnet"@ {
        "https://blockstream.info/api"@
    } else if network == "testnet"@ {
        "https://blockstream.info/testnet/api"@
    } else if network == "regtest"@ || network == "mutinynet"@ {
        "https://mutinynet.com/api"@
    } else {
        "https://mempool.space/signet/api"@
    }
}

/// The block explorer API URL for a known network name.
pub fn get_esplora_url(network: &str) -> (r: String)
    requires
        has_esplora(network@),
    ensures
        r@ == esplora_url(network@),
{
    if same_text(network, "bitcoin") || same_text(network, "mainnet") {
        "https://blockstream.info/api".to_owned()
    } else if same_text(network, "testnet") {
        "https://blockstream.info/testnet/api".to_owned()
    } else if same_text(network, "regtest") || same_text(network, "mutinynet") {
        "https://mutinynet.com/api".to_owned()
    } else {
        "https://mempool.space/signet/api".to_owned()
    }
}

} // verus!
