use smaug::events::{ChainPosition, EventKind, OutPoint, PrevOut, TxInput, TxOutput, WalletTx};
use smaug::network::Network;
use smaug::params::{Param, ParamValue, RequestParams};
use smaug::registry::{RegistryError, Smaug, WatchDescriptor};
use smaug::wallet::{AddArgs, DescriptorWallet, NameError, WatchError};

const DESC: &str = "wpkh(tpubD6NzVbkrYhZ4Xferm7Pz4VnjdcDPFyjVu5K4iZXQ4pVN8Cks4pHVowTBXBKRhX64pkRyJZJN5xAKj4UDNnLPb5p2sSKXhewoYx5GbTdUFWq/*)";
const CHANGE: &str = "wpkh(tpubEBr4i6yk5nf5DAaJpsi9N2pPYBeJ7fZ5Z9rmN4977iYLCGco1VyjB9tvvuvYtfZzjD5A8igzgw3HeWeeKFmanHYqksqZXYXGsw5zjnj7KM9/*)";

fn regtest_wallet() -> DescriptorWallet {
    DescriptorWallet::from_descriptor(DESC).with_network("regtest".to_string())
}

fn receive_tx(txid: &str, height: u32, value: u64) -> WalletTx {
    WalletTx {
        txid: txid.to_string(),
        raw: vec![0xaa, 0xbb],
        inputs: vec![TxInput {
            previous_output: OutPoint { txid: "f".repeat(64), vout: 1 },
            prevout: None,
        }],
        outputs: vec![TxOutput { value, owned: true }],
        position: ChainPosition::Confirmed { height, time: 1_234_567 },
    }
}

#[test]
fn example_end_to_end() {
    let mut w = regtest_wallet();
    w.update_last_synced(100);
    let name = "W".to_string();
    let coin = "bcrt".to_string();
    let evs = w.record_sync(&name, &coin, 101, vec![receive_tx("T", 101, 50_000)]);
    assert_eq!(evs.len(), 1);
    assert_eq!(evs[0].kind, EventKind::Deposit);
    assert_eq!(evs[0].outpoint.label(), "T:0");
    assert_eq!(evs[0].amount_msat, 50_000_000);
    assert_eq!(evs[0].transfer_from.as_ref().unwrap().label(), "external");
    assert_eq!(evs[0].account.label(), "smaug:W");
    assert_eq!(evs[0].blockheight, 101);
    assert_eq!(w.last_synced, Some(101));
}

#[test]
fn resync_is_idempotent() {
    let mut w = regtest_wallet();
    let txs = || vec![receive_tx("a", 10, 5), receive_tx("b", 11, 6)];
    let first = w.record_sync(&"n".to_string(), &"bcrt".to_string(), 11, txs());
    assert_eq!(first.len(), 2);
    let second = w.record_sync(&"n".to_string(), &"bcrt".to_string(), 11, txs());
    assert!(second.is_empty());
    assert_eq!(w.last_synced, Some(11));
    assert_eq!(w.transactions.len(), 2);
}

#[test]
fn seen_transaction_not_reported_again() {
    let mut w = regtest_wallet();
    let fresh = w.update_transactions(vec![receive_tx("a", 10, 5), receive_tx("a", 10, 5)]);
    assert_eq!(fresh.len(), 1);
    assert_eq!(w.transactions[0].txid, "a");
    assert_eq!(w.transactions[0].raw, vec![0xaa, 0xbb]);
    let again = w.update_transactions(vec![receive_tx("a", 12, 5), receive_tx("c", 12, 5)]);
    assert_eq!(again.len(), 1);
    assert_eq!(again[0].txid, "c");
}

#[test]
fn unconfirmed_not_recorded() {
    let mut w = regtest_wallet();
    let mut tx = receive_tx("u", 0, 5);
    tx.position = ChainPosition::Unconfirmed;
    let fresh = w.update_transactions(vec![tx]);
    assert!(fresh.is_empty());
    assert!(!w.has_seen(&"u".to_string()));
    // once confirmed it is taken in
    let fresh = w.update_transactions(vec![receive_tx("u", 7, 5)]);
    assert_eq!(fresh.len(), 1);
    assert!(w.has_seen(&"u".to_string()));
}

#[test]
fn name_is_checksum_of_descriptors() {
    let w = regtest_wallet();
    let name = w.get_name().unwrap();
    assert_eq!(name.len(), 8);
    assert_ne!(name, DESC);
    assert_eq!(name, regtest_wallet().get_name().unwrap());
    let with_change = regtest_wallet().with_change_descriptor(CHANGE).unwrap();
    let both = with_change.get_name().unwrap();
    assert_eq!(both.len(), 16);
    assert!(both.starts_with(&name));
}

#[test]
fn name_errors() {
    let no_network = DescriptorWallet::from_descriptor(DESC);
    assert!(matches!(no_network.get_name(), Err(NameError::Network(_))));
    let bad = DescriptorWallet::from_descriptor("not a descriptor").with_network("regtest".to_string());
    assert!(matches!(bad.get_name(), Err(NameError::Descriptor(_))));
}

#[test]
fn network_of_wallet() {
    assert_eq!(regtest_wallet().get_network().unwrap(), Network::Regtest);
}

#[test]
fn process_sync_uses_name_and_currency() {
    let mut w = regtest_wallet();
    let name = w.get_name().unwrap();
    let evs = w.process_sync(3, vec![receive_tx("t", 3, 1)]).unwrap();
    assert_eq!(evs.len(), 1);
    assert_eq!(evs[0].account.label(), format!("smaug:{}", name));
    assert_eq!(evs[0].coin_type, "bcrt");
    assert_eq!(w.last_synced, Some(3));
    let one = regtest_wallet().notifications_for_tx(&receive_tx("t", 3, 1)).unwrap();
    assert_eq!(one.len(), 1);
    let mut broken = DescriptorWallet::from_descriptor(DESC);
    assert!(broken.process_sync(3, vec![receive_tx("t", 3, 1)]).is_err());
    assert_eq!(broken.last_synced, None);
}

#[test]
fn builder_errors() {
    let e = DescriptorWallet::from_descriptor(DESC).with_change_descriptor("").unwrap_err();
    assert!(matches!(e, WatchError::InvalidChangeDescriptor(_)));
    assert_eq!(e.message(), "change_descriptor is empty");
    let e = DescriptorWallet::from_descriptor(DESC).with_birthday(4294967296).unwrap_err();
    assert_eq!(e.message(), "birthday must be between 0 and 4294967295. Received: 4294967296");
    let e = DescriptorWallet::from_descriptor(DESC).with_gap(2147483648).unwrap_err();
    assert!(matches!(e, WatchError::InvalidGap(_)));
    assert_eq!(e.message(), "gap must be between 0 and 2147483647. Received: 2147483648");
    let w = DescriptorWallet::from_descriptor(DESC).with_birthday(4294967295).unwrap();
    assert_eq!(w.birthday, Some(4294967295));
    let w = w.with_gap(2147483647).unwrap();
    assert_eq!(w.gap, Some(2147483647));
}

#[test]
fn new_checks_in_order() {
    let w = DescriptorWallet::new(DESC, Some(CHANGE), Some(5), Some(20), Some("regtest".to_string())).unwrap();
    assert_eq!(w.change_descriptor.as_deref(), Some(CHANGE));
    assert_eq!(w.birthday, Some(5));
    assert_eq!(w.gap, Some(20));
    let e = DescriptorWallet::new(DESC, Some(""), Some(u64::MAX), None, None).unwrap_err();
    assert!(matches!(e, WatchError::InvalidChangeDescriptor(_)));
    let e = DescriptorWallet::new(DESC, None, Some(u64::MAX), Some(u64::MAX), None).unwrap_err();
    assert!(matches!(e, WatchError::InvalidBirthday(_)));
}

#[test]
fn from_args_keeps_arguments() {
    let args = AddArgs { descriptor: DESC.to_string(), change_descriptor: None, birthday: Some(9), gap: None };
    let w = DescriptorWallet::from_args(args, "signet".to_string()).unwrap();
    assert_eq!(w.descriptor, DESC);
    assert_eq!(w.birthday, Some(9));
    assert_eq!(w.network.as_deref(), Some("signet"));
    assert_eq!(w.last_synced, None);
}

fn text(s: &str) -> Param {
    Param { value: ParamValue::Text(s.to_string()), rendered: format!("\"{}\"", s) }
}

fn number(n: u64) -> Param {
    Param { value: ParamValue::Number(n), rendered: n.to_string() }
}

#[test]
fn params_in_order() {
    let p = RequestParams::Positional(vec![text(DESC), text(CHANGE), number(7), number(30)]);
    let w = DescriptorWallet::from_params(&p).unwrap();
    assert_eq!(w.birthday, Some(7));
    assert_eq!(w.gap, Some(30));
    let p = RequestParams::Positional(vec![]);
    let e = DescriptorWallet::from_params(&p).unwrap_err();
    assert_eq!(e.message(), "Unexpected request format. The request needs 1-4 parameters. Received: 0");
    let p = RequestParams::Positional(vec![number(1)]);
    assert!(matches!(DescriptorWallet::from_params(&p), Err(WatchError::InvalidDescriptor(_))));
    let p = RequestParams::Positional(vec![text(DESC), text(CHANGE), text("x")]);
    let e = DescriptorWallet::from_params(&p).unwrap_err();
    assert_eq!(e.message(), "birthday must be a number. Received: \"x\"");
    let p = RequestParams::Positional(vec![text(DESC), number(3)]);
    let e = DescriptorWallet::from_params(&p).unwrap_err();
    assert_eq!(e.message(), "change_descriptor must be a string. Received: 3");
    let p = RequestParams::Positional(vec![text(DESC), text(CHANGE), number(1), text("g")]);
    assert!(matches!(DescriptorWallet::from_params(&p), Err(WatchError::InvalidGap(_))));
}

#[test]
fn params_by_name() {
    let p = RequestParams::Named(vec![("gap".to_string(), number(4)), ("descriptor".to_string(), text(DESC))]);
    let w = DescriptorWallet::from_params(&p).unwrap();
    assert_eq!(w.gap, Some(4));
    assert_eq!(w.descriptor, DESC);
    let p = RequestParams::Named(vec![("gap".to_string(), number(4))]);
    let e = DescriptorWallet::from_params(&p).unwrap_err();
    assert_eq!(e.message(), "descriptor is mandatory");
    let p = RequestParams::Named(vec![("descriptor".to_string(), text(DESC)), ("colour".to_string(), number(1))]);
    assert!(matches!(DescriptorWallet::from_params(&p), Err(WatchError::InvalidFormat(_))));
    let p = RequestParams::Other("true".to_string());
    let e = DescriptorWallet::from_params(&p).unwrap_err();
    assert_eq!(
        e.message(),
        "Unexpected request format. Expected: <descriptor>, [change_descriptor, birthday, gap], either as ordered or keyword args. Received: 'true'"
    );
}

#[test]
fn registry_add_replace_remove() {
    let mut s = Smaug::new();
    assert_eq!(s.brpc_port, 8332);
    assert_eq!(s.network, "bitcoin");
    let w = regtest_wallet();
    let name = w.get_name().unwrap();
    s.add_descriptor_wallet(w).unwrap();
    s.add_descriptor_wallet(regtest_wallet()).unwrap();
    assert_eq!(s.list().len(), 1);
    assert!(s.get(&name).is_some());
    let removed = s.remove_wallet(&name).unwrap();
    assert_eq!(removed.descriptor, DESC);
    assert!(s.list().is_empty());
    match s.remove_wallet(&name) {
        Err(RegistryError::NotFound(n)) => assert_eq!(n, name),
        other => panic!("unexpected {:?}", other),
    }
    assert!(s.add_descriptor_wallet(DescriptorWallet::from_descriptor(DESC)).is_err());
    assert!(s.list().is_empty());
}

#[test]
fn registry_insert_by_name() {
    let mut s = Smaug::new();
    s.insert_wallet("a".to_string(), regtest_wallet());
    s.insert_wallet("b".to_string(), regtest_wallet());
    let mut replaced = regtest_wallet();
    replaced.update_last_synced(5);
    s.insert_wallet("a".to_string(), replaced);
    assert_eq!(s.list().len(), 2);
    assert_eq!(s.get(&"a".to_string()).unwrap().last_synced, Some(5));
}

#[test]
fn watch_descriptor_list() {
    let mut wd = WatchDescriptor::new();
    wd.add_descriptor_wallet(regtest_wallet());
    assert_eq!(wd.wallets.len(), 1);
}

#[test]
fn sync_keeps_parameters_and_never_lowers_height() {
    let mut w = DescriptorWallet::new(DESC, Some(CHANGE), Some(5), Some(20), Some("regtest".to_string())).unwrap();
    w.update_last_synced(50);
    let evs = w.process_sync(40, vec![receive_tx("k", 40, 9)]).unwrap();
    assert_eq!(evs.len(), 1);
    assert_eq!(w.last_synced, Some(50));
    assert_eq!(w.descriptor, DESC);
    assert_eq!(w.change_descriptor.as_deref(), Some(CHANGE));
    assert_eq!(w.birthday, Some(5));
    assert_eq!(w.gap, Some(20));
    assert_eq!(w.network.as_deref(), Some("regtest"));
    let raw_before = w.transactions[0].raw.clone();
    let again = w.process_sync(60, vec![receive_tx("k", 40, 9)]).unwrap();
    assert!(again.is_empty());
    assert_eq!(w.transactions.len(), 1);
    assert_eq!(w.transactions[0].raw, raw_before);
    assert_eq!(w.last_synced, Some(60));
}

#[test]
fn registry_keeps_node_settings() {
    let mut s = Smaug::new();
    s.brpc_port = 18443;
    s.add_descriptor_wallet(regtest_wallet()).unwrap();
    assert_eq!(s.brpc_port, 18443);
    assert_eq!(s.brpc_host, "127.0.0.1");
    assert_eq!(s.network, "bitcoin");
}
