//! Classifying confirmed transactions and the coin-movement events they give.
use vstd::prelude::*;
use crate::text::{decimal, decimal_string, join2};

verus! {

/// Where a transaction stands in the chain.
#[derive(Clone, Copy, Debug, PartialEq, Eq, Structural)]
pub enum ChainPosition {
    Unconfirmed,
    Confirmed { height: u32, time: u64 },
}

/// A reference to a transaction output: the transaction's id and the output's index.
#[derive(Clone, Debug)]
pub struct OutPoint {
    pub txid: String,
    pub vout: u32,
}

impl OutPoint {
    /// The `txid:vout` form of the reference.
    pub open spec fn label_spec(&self) -> Seq<char> {
        self.txid@ + ":"@ + decimal(self.vout as nat)
    }

    /// Renders the reference as `txid:vout`.
    pub fn label(&self) -> (r: String)
        ensures
            r@ == self.label_spec(),
    {
        let mut s = join2(self.txid.as_str(), ":");
        let d = decimal_string(self.vout as u64);
        s.append(d.as_str());
        s
    }
}

/// The output an input spends, as far as the wallet's transaction graph knows it.
#[derive(Clone, Copy, Debug, PartialEq, Eq, Structural)]
pub struct PrevOut {
    /// Its value in satoshis.
    pub value: u64,
    /// Whether its script belongs to the wallet.
    pub owned: bool,
}

/// A transaction input.
#[derive(Clone, Debug)]
pub struct TxInput {
    /// The output it spends.
    pub previous_output: OutPoint,
    /// That output, or `None` where the wallet's graph does not hold it.
    pub prevout: Option<PrevOut>,
}

/// A transaction output.
#[derive(Clone, Copy, Debug, PartialEq, Eq, Structural)]
pub struct TxOutput {
    /// Its value in satoshis.
    pub value: u64,
    /// Whether its script belongs to the wallet.
    pub owned: bool,
}

/// A transaction of the wallet, as the classifier reads it.
#[derive(Clone, Debug)]
pub struct WalletTx {
    pub txid: String,
    /// The transaction in its consensus encoding.
    pub raw: Vec<u8>,
    pub inputs: Vec<TxInput>,
    pub outputs: Vec<TxOutput>,
    pub position: ChainPosition,
}

/// The largest number of satoshis whose value in sub-units fits in a `u64`.
pub const MAX_SATS: u64 = 18446744073709551;

/// Amounts fit in sub-units and outputs can be numbered.
pub open spec fn tx_fits(tx: WalletTx) -> bool {
    &&& tx.outputs.len() <= u32::MAX
    &&& forall|k: int| 0 <= k < tx.outputs.len() ==> tx.outputs@[k].value <= MAX_SATS
    &&& forall|k: int|
        0 <= k < tx.inputs.len() && (#[trigger] tx.inputs@[k]).prevout is Some
            ==> tx.inputs@[k].prevout->0.value <= MAX_SATS
}

/// An input is owned when the output it spends is known and belongs to the
/// wallet; an input whose output is unknown is not owned.
pub open spec fn input_owned(i: TxInput) -> bool {
    i.prevout is Some && i.prevout->0.owned
}

/// The three ways a transaction can relate to the wallet through its inputs.
#[derive(Clone, Copy, Debug, PartialEq, Eq, Structural)]
pub enum TxClass {
    /// Every input is owned: the wallet sent it.
    Spend,
    /// No input is owned: the wallet received it.
    Receive,
    /// Some inputs are owned and some are not.
    Shared,
}

pub open spec fn all_inputs_owned(tx: WalletTx) -> bool {
    forall|k: int| 0 <= k < tx.inputs.len() ==> input_owned(#[trigger] tx.inputs@[k])
}

pub open spec fn no_input_owned(tx: WalletTx) -> bool {
    forall|k: int| 0 <= k < tx.inputs.len() ==> !input_owned(#[trigger] tx.inputs@[k])
}

/// The class of a transaction, from the ownership of its inputs alone.
pub open spec fn class_of(tx: WalletTx) -> TxClass {
    if all_inputs_owned(tx) {
        TxClass::Spend
    } else if no_input_owned(tx) {
        TxClass::Receive
    } else {
        TxClass::Shared
    }
}

/// Classifies a transaction by the ownership of its inputs.
pub fn classify(tx: &WalletTx) -> (r: TxClass)
    ensures
        r == class_of(*tx),
{
    let mut all_owned = true;
    let mut any_owned = false;
    let mut i: usize = 0;
    while i < tx.inputs.len()
        invariant
            i <= tx.inputs.len(),
            all_owned == forall|k: int| 0 <= k < i ==> input_owned(#[trigger] tx.inputs@[k]),
            any_owned == exists|k: int| 0 <= k < i && input_owned(#[trigger] tx.inputs@[k]),
        decreases tx.inputs.len() - i,
    {
        let owned = match tx.inputs[i].prevout {
            Some(p) => p.owned,
            None => false,
        };
        proof {
            if !owned {
                assert(!input_owned(tx.inputs@[i as int]));
            }
        }
        if owned {
            any_owned = true;
        } else {
            all_owned = false;
        }
        i = i + 1;
    }
    if all_owned {
        TxClass::Spend
    } else if !any_owned {
        TxClass::Receive
    } else {
        TxClass::Shared
    }
}

/// Whether an event records coins arriving at or leaving an account.
#[derive(Clone, Copy, Debug, PartialEq, Eq, Structural)]
pub enum EventKind {
    Deposit,
    Spend,
}

/// The account an event is booked to.
#[derive(Clone, Debug)]
pub enum Account {
    /// The watched wallet, by its deterministic name.
    Wallet(String),
    /// The pending account of a wallet for outputs of shared transactions.
    SharedOutputs(String),
    /// Anything outside the wallet.
    External,
}

impl Account {
    /// A copy of the account.
    pub fn duplicate(&self) -> (r: Account)
        ensures
            r == *self,
    {
        match self {
            Account::Wallet(n) => Account::Wallet(n.clone()),
            Account::SharedOutputs(n) => Account::SharedOutputs(n.clone()),
            Account::External => Account::External,
        }
    }

    pub open spec fn label_spec(&self) -> Seq<char> {
        match self {
            Account::Wallet(n) => "smaug:"@ + n@,
            Account::SharedOutputs(n) => "smaug:"@ + n@ + ":shared"@,
            Account::External => "external"@,
        }
    }

    /// The account's identifier as the accounting consumer knows it.
    pub fn label(&self) -> (r: String)
        ensures
            r@ == self.label_spec(),
    {
        match self {
            Account::Wallet(n) => join2("smaug:", n.as_str()),
            Account::SharedOutputs(n) => {
                let mut s = join2("smaug:", n.as_str());
                s.append(":shared");
                s
            },
            Account::External => "external".to_owned(),
        }
    }
}

/// One coin movement to report.
#[derive(Clone, Debug)]
pub struct CoinEvent {
    pub kind: EventKind,
    pub account: Account,
    pub transfer_from: Option<Account>,
    pub outpoint: OutPoint,
    /// The id of the transaction that moves the coins.
    pub txid: String,
    /// The amount in sub-units: satoshis times a thousand.
    pub amount_msat: u64,
    pub coin_type: String,
    /// The confirmation time of the block.
    pub timestamp: u64,
    pub blockheight: u32,
}

/// Satoshis in the accounting consumer's sub-unit.
pub open spec fn msats(sats: u64) -> u64 {
    (sats * 1000) as u64
}

pub open spec fn conf_height(p: ChainPosition) -> u32 {
    match p {
        ChainPosition::Confirmed { height, .. } => height,
        ChainPosition::Unconfirmed => 0,
    }
}

pub open spec fn conf_time(p: ChainPosition) -> u64 {
    match p {
        ChainPosition::Confirmed { time, .. } => time,
        ChainPosition::Unconfirmed => 0,
    }
}

/// The spend event of input `k`, booked to the wallet.
pub open spec fn spend_event(name: String, coin: String, tx: WalletTx, k: int) -> CoinEvent {
    CoinEvent {
        kind: EventKind::Spend,
        account: Account::Wallet(name),
        transfer_from: None,
        outpoint: tx.inputs@[k].previous_output,
        txid: tx.txid,
        amount_msat: msats(tx.inputs@[k].prevout->0.value),
        coin_type: coin,
        timestamp: conf_time(tx.position),
        blockheight: conf_height(tx.position),
    }
}

/// The deposit event of output `k`: an owned output is booked to `mine` from
/// outside, another one to the outside from `mine`.
pub open spec fn deposit_event(mine: Account, coin: String, tx: WalletTx, k: int) -> CoinEvent {
    let owned = tx.outputs@[k].owned;
    CoinEvent {
        kind: EventKind::Deposit,
        account: if owned {
            mine
        } else {
            Account::External
        },
        transfer_from: Some(
            if owned {
                Account::External
            } else {
                mine
            },
        ),
        outpoint: OutPoint { txid: tx.txid, vout: k as u32 },
        txid: tx.txid,
        amount_msat: msats(tx.outputs@[k].value),
        coin_type: coin,
        timestamp: conf_time(tx.position),
        blockheight: conf_height(tx.position),
    }
}

/// Spend events of the owned inputs among the first `n`.
pub open spec fn owned_input_spends(name: String, coin: String, tx: WalletTx, n: int) -> Seq<
    CoinEvent,
>
    decreases n,
{
    if n <= 0 {
        seq![]
    } else if input_owned(tx.inputs@[n - 1]) {
        owned_input_spends(name, coin, tx, n - 1).push(spend_event(name, coin, tx, n - 1))
    } else {
        owned_input_spends(name, coin, tx, n - 1)
    }
}

/// Deposit events of the first `n` outputs; with `only_owned`, of the owned ones alone.
pub open spec fn output_deposits(
    mine: Account,
    only_owned: bool,
    coin: String,
    tx: WalletTx,
    n: int,
) -> Seq<CoinEvent>
    decreases n,
{
    if n <= 0 {
        seq![]
    } else if only_owned && !tx.outputs@[n - 1].owned {
        output_deposits(mine, only_owned, coin, tx, n - 1)
    } else {
        output_deposits(mine, only_owned, coin, tx, n - 1).push(
            deposit_event(mine, coin, tx, n - 1),
        )
    }
}

/// The events of a transaction for the wallet named `name`:
/// none while it is unconfirmed; otherwise those of its class.
pub open spec fn tx_events(name: String, coin: String, tx: WalletTx) -> Seq<CoinEvent> {
    if tx.position is Unconfirmed {
        seq![]
    } else {
        let ni = tx.inputs.len() as int;
        let no = tx.outputs.len() as int;
        match class_of(tx) {
            TxClass::Spend => owned_input_spends(name, coin, tx, ni) + output_deposits(
                Account::Wallet(name),
                false,
                coin,
                tx,
                no,
            ),
            TxClass::Receive => output_deposits(Account::Wallet(name), true, coin, tx, no),
            TxClass::Shared => owned_input_spends(name, coin, tx, ni) + output_deposits(
                Account::SharedOutputs(name),
                false,
                coin,
                tx,
                no,
            ),
        }
    }
}

/// Converts satoshis to the accounting consumer's sub-unit.
pub fn sats_to_msats(amount: u64) -> (r: u64)
    requires
        amount <= MAX_SATS,
    ensures
        r == amount * 1000,
{
    amount * 1000
}

fn push_owned_input_spends(
    name: &String,
    coin: &String,
    tx: &WalletTx,
    events: &mut Vec<CoinEvent>,
)
    requires
        tx_fits(*tx),
    ensures
        final(events)@ == old(events)@ + owned_input_spends(
            *name,
            *coin,
            *tx,
            tx.inputs.len() as int,
        ),
{
    let ghost start = events@;
    let (height, time) = match tx.position {
        ChainPosition::Confirmed { height, time } => (height, time),
        ChainPosition::Unconfirmed => (0, 0),
    };
    let mut i: usize = 0;
    while i < tx.inputs.len()
        invariant
            i <= tx.inputs.len(),
            tx_fits(*tx),
            height == conf_height(tx.position),
            time == conf_time(tx.position),
            events@ == start + owned_input_spends(*name, *coin, *tx, i as int),
        decreases tx.inputs.len() - i,
    {
        let input = &tx.inputs[i];
        match input.prevout {
            Some(p) => {
                if p.owned {
                    let ev = CoinEvent {
                        kind: EventKind::Spend,
                        account: Account::Wallet(name.clone()),
                        transfer_from: None,
                        outpoint: OutPoint {
                            txid: input.previous_output.txid.clone(),
                            vout: input.previous_output.vout,
                        },
                        txid: tx.txid.clone(),
                        amount_msat: sats_to_msats(p.value),
                        coin_type: coin.clone(),
                        timestamp: time,
                        blockheight: height,
                    };
                    assert(ev == spend_event(*name, *coin, *tx, i as int));
                    events.push(ev);
                }
            },
            None => {},
        }
        i = i + 1;
    }
}

fn push_output_deposits(
    mine: &Account,
    only_owned: bool,
    coin: &String,
    tx: &WalletTx,
    events: &mut Vec<CoinEvent>,
)
    requires
        tx_fits(*tx),
    ensures
        final(events)@ == old(events)@ + output_deposits(
            *mine,
            only_owned,
            *coin,
            *tx,
            tx.outputs.len() as int,
        ),
{
    let ghost start = events@;
    let (height, time) = match tx.position {
        ChainPosition::Confirmed { height, time } => (height, time),
        ChainPosition::Unconfirmed => (0, 0),
    };
    let mut i: usize = 0;
    while i < tx.outputs.len()
        invariant
            i <= tx.outputs.len(),
            tx_fits(*tx),
            height == conf_height(tx.position),
            time == conf_time(tx.position),
            events@ == start + output_deposits(*mine, only_owned, *coin, *tx, i as int),
        decreases tx.outputs.len() - i,
    {
        let out = tx.outputs[i];
        if !only_owned || out.owned {
            let account = if out.owned {
                mine.duplicate()
            } else {
                Account::External
            };
            let from = if out.owned {
                Account::External
            } else {
                mine.duplicate()
            };
            let ev = CoinEvent {
                kind: EventKind::Deposit,
                account,
                transfer_from: Some(from),
                outpoint: OutPoint { txid: tx.txid.clone(), vout: i as u32 },
                txid: tx.txid.clone(),
                amount_msat: sats_to_msats(out.value),
                coin_type: coin.clone(),
                timestamp: time,
                blockheight: height,
            };
            assert(ev == deposit_event(*mine, *coin, *tx, i as int));
            events.push(ev);
        }
        i = i + 1;
    }
}

/// The events of a transaction for the wallet named `name`, whose currency
/// code is `coin`.
pub fn tx_events_for(name: &String, coin: &String, tx: &WalletTx) -> (r: Vec<CoinEvent>)
    requires
        tx_fits(*tx),
    ensures
        r@ == tx_events(*name, *coin, *tx),
{
    let mut events: Vec<CoinEvent> = Vec::new();
    if tx.position == ChainPosition::Unconfirmed {
        return events;
    }
    match classify(tx) {
        TxClass::Spend => {
            push_owned_input_spends(name, coin, tx, &mut events);
            push_output_deposits(&Account::Wallet(name.clone()), false, coin, tx, &mut events);
        },
        TxClass::Receive => {
            push_output_deposits(&Account::Wallet(name.clone()), true, coin, tx, &mut events);
        },
        TxClass::Shared => {
            push_owned_input_spends(name, coin, tx, &mut events);
            push_output_deposits(
                &Account::SharedOutputs(name.clone()),
                false,
                coin,
                tx,
                &mut events,
            );
        },
    }
    assert(events@ =~= tx_events(*name, *coin, *tx));
    events
}

/// A transaction falls in exactly one class, and which one is decided by
/// whether its inputs are owned alone: every input owned gives `Spend`, no
/// input owned (and at least one input) gives `Receive`, owned and unowned
/// inputs together give `Shared`.
pub proof fn lemma_class_exclusive(tx: WalletTx)
    ensures
        class_of(tx) == TxClass::Spend <==> all_inputs_owned(tx),
        class_of(tx) == TxClass::Receive <==> !all_inputs_owned(tx) && no_input_owned(tx),
        class_of(tx) == TxClass::Shared <==> (exists|k: int|
            0 <= k < tx.inputs.len() && input_owned(#[trigger] tx.inputs@[k])) && (exists|k: int|
            0 <= k < tx.inputs.len() && !input_owned(#[trigger] tx.inputs@[k])),
{
}

/// Two transactions whose inputs agree on ownership, input by input, fall in
/// the same class, whatever else differs between them.
pub proof fn lemma_class_by_inputs(a: WalletTx, b: WalletTx)
    requires
        a.inputs.len() == b.inputs.len(),
        forall|k: int|
            0 <= k < a.inputs.len() ==> input_owned(#[trigger] a.inputs@[k]) == input_owned(
                b.inputs@[k],
            ),
    ensures
        class_of(a) == class_of(b),
{
    assert(all_inputs_owned(a) == all_inputs_owned(b)) by {
        if all_inputs_owned(a) {
            assert forall|k: int| 0 <= k < b.inputs.len() implies input_owned(
                #[trigger] b.inputs@[k],
            ) by {
                assert(input_owned(a.inputs@[k]));
            }
        }
        if all_inputs_owned(b) {
            assert forall|k: int| 0 <= k < a.inputs.len() implies input_owned(
                #[trigger] a.inputs@[k],
            ) by {
                assert(input_owned(b.inputs@[k]));
            }
        }
    }
    assert(no_input_owned(a) == no_input_owned(b)) by {
        if no_input_owned(a) {
            assert forall|k: int| 0 <= k < b.inputs.len() implies !input_owned(
                #[trigger] b.inputs@[k],
            ) by {
                assert(!input_owned(a.inputs@[k]));
            }
        }
        if no_input_owned(b) {
            assert forall|k: int| 0 <= k < a.inputs.len() implies !input_owned(
                #[trigger] a.inputs@[k],
            ) by {
                assert(!input_owned(b.inputs@[k]));
            }
        }
    }
}

/// An unconfirmed transaction gives no event.
pub proof fn lemma_unconfirmed_no_events(name: String, coin: String, tx: WalletTx)
    requires
        tx.position is Unconfirmed,
    ensures
        tx_events(name, coin, tx) == Seq::<CoinEvent>::empty(),
{
}

/// A transaction touches the wallet when one of its outputs or one of its
/// inputs is owned.
pub open spec fn touches_wallet(tx: WalletTx) -> bool {
    (exists|k: int| 0 <= k < tx.outputs.len() && (#[trigger] tx.outputs@[k]).owned) || (exists|k: int|
        0 <= k < tx.inputs.len() && input_owned(#[trigger] tx.inputs@[k]))
}

/// Whether a transaction of a block is relevant to the wallet: it pays to the
/// wallet or spends from it. The bdk release this crate builds on cannot apply
/// a block to a wallet, so the filter it would use is stated here.
pub fn is_relevant(tx: &WalletTx) -> (r: bool)
    ensures
        r == touches_wallet(*tx),
{
    let mut i: usize = 0;
    while i < tx.outputs.len()
        invariant
            i <= tx.outputs.len(),
            forall|k: int| 0 <= k < i ==> !(#[trigger] tx.outputs@[k]).owned,
        decreases tx.outputs.len() - i,
    {
        if tx.outputs[i].owned {
            return true;
        }
        i = i + 1;
    }
    let mut j: usize = 0;
    while j < tx.inputs.len()
        invariant
            j <= tx.inputs.len(),
            forall|k: int| 0 <= k < tx.outputs.len() ==> !(#[trigger] tx.outputs@[k]).owned,
            forall|k: int| 0 <= k < j ==> !input_owned(#[trigger] tx.inputs@[k]),
        decreases tx.inputs.len() - j,
    {
        let owned = match tx.inputs[j].prevout {
            Some(p) => p.owned,
            None => false,
        };
        if owned {
            assert(input_owned(tx.inputs@[j as int]));
            return true;
        }
        j = j + 1;
    }
    false
}

proof fn lemma_first_output_only(mine: Account, coin: String, tx: WalletTx, n: int)
    requires
        1 <= n <= tx.outputs.len(),
        tx.outputs@[0].owned,
        forall|k: int| 1 <= k < tx.outputs.len() ==> !(#[trigger] tx.outputs@[k]).owned,
    ensures
        output_deposits(mine, true, coin, tx, n) == seq![deposit_event(mine, coin, tx, 0)],
    decreases n,
{
    if n > 1 {
        lemma_first_output_only(mine, coin, tx, n - 1);
    } else {
        assert(output_deposits(mine, true, coin, tx, 0) =~= Seq::<CoinEvent>::empty());
        assert(output_deposits(mine, true, coin, tx, 1) =~= seq![deposit_event(mine, coin, tx, 0)]);
    }
}

/// A confirmed transaction that spends nothing of the wallet (it has inputs,
/// none owned) and pays the wallet only at its first output gives exactly one
/// event: a deposit to the wallet from outside, at outpoint `txid:0`, of the
/// output's value in sub-units, at the transaction's block height.
pub proof fn lemma_single_receive(name: String, coin: String, tx: WalletTx)
    requires
        tx.position is Confirmed,
        tx.inputs.len() > 0,
        no_input_owned(tx),
        tx.outputs.len() >= 1,
        tx.outputs@[0].owned,
        forall|k: int| 1 <= k < tx.outputs.len() ==> !(#[trigger] tx.outputs@[k]).owned,
    ensures
        tx_events(name, coin, tx) == seq![deposit_event(Account::Wallet(name), coin, tx, 0)],
        deposit_event(Account::Wallet(name), coin, tx, 0) == (CoinEvent {
            kind: EventKind::Deposit,
            account: Account::Wallet(name),
            transfer_from: Some(Account::External),
            outpoint: OutPoint { txid: tx.txid, vout: 0 },
            txid: tx.txid,
            amount_msat: msats(tx.outputs@[0].value),
            coin_type: coin,
            timestamp: conf_time(tx.position),
            blockheight: conf_height(tx.position),
        }),
{
    assert(!input_owned(tx.inputs@[0]));
    assert(!all_inputs_owned(tx));
    assert(class_of(tx) == TxClass::Receive);
    lemma_first_output_only(Account::Wallet(name), coin, tx, tx.outputs.len() as int);
}

} // verus!
