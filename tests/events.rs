use smaug::events::{
    classify, sats_to_msats, tx_events_for, Account, ChainPosition, EventKind, OutPoint, PrevOut,
    TxClass, TxInput, TxOutput, WalletTx,
};

fn input(txid: &str, vout: u32, prevout: Option<PrevOut>) -> TxInput {
    TxInput { previous_output: OutPoint { txid: txid.to_string(), vout }, prevout }
}

fn owned(value: u64) -> Option<PrevOut> {
    Some(PrevOut { value, owned: true })
}

fn foreign(value: u64) -> Option<PrevOut> {
    Some(PrevOut { value, owned: false })
}

fn confirmed_tx(txid: &str, inputs: Vec<TxInput>, outputs: Vec<TxOutput>) -> WalletTx {
    WalletTx {
        txid: txid.to_string(),
        raw: vec![1, 2, 3],
        inputs,
        outputs,
        position: ChainPosition::Confirmed { height: 200, time: 1_700_000_000 },
    }
}

#[test]
fn classify_by_input_ownership() {
    let out = vec![TxOutput { value: 10, owned: true }];
    let spend = confirmed_tx("a", vec![input("p", 0, owned(5)), input("p", 1, owned(6))], out.clone());
    assert_eq!(classify(&spend), TxClass::Spend);
    let receive = confirmed_tx("b", vec![input("p", 0, foreign(5)), input("q", 0, None)], out.clone());
    assert_eq!(classify(&receive), TxClass::Receive);
    let shared = confirmed_tx("c", vec![input("p", 0, owned(5)), input("q", 0, foreign(6))], out.clone());
    assert_eq!(classify(&shared), TxClass::Shared);
    // an input whose output is unknown counts as not owned
    let unresolved = confirmed_tx("d", vec![input("p", 0, owned(5)), input("q", 0, None)], out);
    assert_eq!(classify(&unresolved), TxClass::Shared);
}

#[test]
fn spend_path_events() {
    let tx = confirmed_tx(
        "s",
        vec![input("p", 3, owned(1000))],
        vec![TxOutput { value: 300, owned: true }, TxOutput { value: 600, owned: false }],
    );
    let name = "wname".to_string();
    let coin = "bcrt".to_string();
    let evs = tx_events_for(&name, &coin, &tx);
    assert_eq!(evs.len(), 3);
    assert_eq!(evs[0].kind, EventKind::Spend);
    assert_eq!(evs[0].account.label(), "smaug:wname");
    assert!(evs[0].transfer_from.is_none());
    assert_eq!(evs[0].outpoint.label(), "p:3");
    assert_eq!(evs[0].amount_msat, 1_000_000);
    assert_eq!(evs[0].txid, "s");
    assert_eq!(evs[0].blockheight, 200);
    assert_eq!(evs[0].timestamp, 1_700_000_000);
    assert_eq!(evs[1].kind, EventKind::Deposit);
    assert_eq!(evs[1].account.label(), "smaug:wname");
    assert_eq!(evs[1].transfer_from.as_ref().unwrap().label(), "external");
    assert_eq!(evs[1].outpoint.label(), "s:0");
    assert_eq!(evs[1].amount_msat, 300_000);
    assert_eq!(evs[2].account.label(), "external");
    assert_eq!(evs[2].transfer_from.as_ref().unwrap().label(), "smaug:wname");
    assert_eq!(evs[2].outpoint.label(), "s:1");
    assert_eq!(evs[2].coin_type, "bcrt");
}

#[test]
fn receive_path_reports_owned_outputs_only() {
    let tx = confirmed_tx(
        "r",
        vec![input("p", 0, None)],
        vec![TxOutput { value: 7, owned: false }, TxOutput { value: 8, owned: true }],
    );
    let evs = tx_events_for(&"w".to_string(), &"bc".to_string(), &tx);
    assert_eq!(evs.len(), 1);
    assert_eq!(evs[0].kind, EventKind::Deposit);
    assert_eq!(evs[0].outpoint.label(), "r:1");
    assert_eq!(evs[0].amount_msat, 8000);
    assert!(matches!(evs[0].transfer_from, Some(Account::External)));
}

#[test]
fn shared_path_uses_pending_account() {
    let tx = confirmed_tx(
        "x",
        vec![input("p", 0, owned(50)), input("q", 1, foreign(60))],
        vec![TxOutput { value: 20, owned: true }, TxOutput { value: 30, owned: false }],
    );
    let evs = tx_events_for(&"w".to_string(), &"bc".to_string(), &tx);
    assert_eq!(evs.len(), 3);
    assert_eq!(evs[0].kind, EventKind::Spend);
    assert_eq!(evs[0].outpoint.label(), "p:0");
    assert_eq!(evs[0].account.label(), "smaug:w");
    assert_eq!(evs[1].account.label(), "smaug:w:shared");
    assert_eq!(evs[1].transfer_from.as_ref().unwrap().label(), "external");
    assert_eq!(evs[2].account.label(), "external");
    assert_eq!(evs[2].transfer_from.as_ref().unwrap().label(), "smaug:w:shared");
}

#[test]
fn unconfirmed_gives_no_events() {
    let mut tx = confirmed_tx("u", vec![], vec![TxOutput { value: 1, owned: true }]);
    tx.position = ChainPosition::Unconfirmed;
    assert!(tx_events_for(&"w".to_string(), &"bc".to_string(), &tx).is_empty());
}

#[test]
fn sub_unit_conversion() {
    assert_eq!(sats_to_msats(0), 0);
    assert_eq!(sats_to_msats(50_000), 50_000_000);
    assert_eq!(sats_to_msats(2_100_000_000_000_000), 2_100_000_000_000_000_000);
}

#[test]
fn outpoint_label_renders_index() {
    let op = OutPoint { txid: "abc".to_string(), vout: 4294967295 };
    assert_eq!(op.label(), "abc:4294967295");
}
