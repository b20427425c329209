use smaug::network::{get_currency, get_esplora_url, parse_currency, parse_network, Network, NetworkError};

#[test]
fn networks_parse_by_name() {
    assert_eq!(parse_network(&Some("bitcoin".to_string())).unwrap(), Network::Bitcoin);
    assert_eq!(parse_network(&Some("testnet".to_string())).unwrap(), Network::Testnet);
    assert_eq!(parse_network(&Some("signet".to_string())).unwrap(), Network::Signet);
    assert_eq!(parse_network(&Some("regtest".to_string())).unwrap(), Network::Regtest);
    assert_eq!(parse_network(&Some("mutinynet".to_string())).unwrap(), Network::Signet);
}

#[test]
fn network_errors() {
    assert!(matches!(parse_network(&None), Err(NetworkError::Missing)));
    match parse_network(&Some("mainnet".to_string())) {
        Err(NetworkError::Unknown(n)) => assert_eq!(n, "mainnet"),
        other => panic!("unexpected {:?}", other),
    }
}

#[test]
fn currency_codes() {
    assert_eq!(get_currency(Network::Bitcoin), "bc");
    assert_eq!(get_currency(Network::Regtest), "bcrt");
    assert_eq!(get_currency(Network::Signet), "tbs");
    assert_eq!(get_currency(Network::Testnet), "tb");
    assert_eq!(parse_currency(&Some("mutinynet".to_string())).unwrap(), "tbs");
    assert!(parse_currency(&None).is_err());
}

#[test]
fn esplora_urls() {
    assert_eq!(get_esplora_url("bitcoin"), "https://blockstream.info/api");
    assert_eq!(get_esplora_url("mainnet"), "https://blockstream.info/api");
    assert_eq!(get_esplora_url("testnet"), "https://blockstream.info/testnet/api");
    assert_eq!(get_esplora_url("regtest"), "https://mutinynet.com/api");
    assert_eq!(get_esplora_url("mutinynet"), "https://mutinynet.com/api");
    assert_eq!(get_esplora_url("signet"), "https://mempool.space/signet/api");
}
