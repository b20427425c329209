//! A watched descriptor wallet: its parameters, its sync height and the
//! transactions it has already reported.
use vstd::prelude::*;
use crate::events::{
    deposit_event, lemma_single_receive, no_input_owned, tx_events, tx_events_for, tx_fits, Account,
    CoinEvent, WalletTx,
};
use crate::network::{network_named, parse_currency, parse_network, currency_of, Network, NetworkError};
use crate::text::{decimal, decimal_string, join2};

verus! {

/// Errors in the parameters of a wallet to add.
#[derive(Debug)]
pub enum WatchError {
    InvalidDescriptor(String),
    InvalidChangeDescriptor(String),
    InvalidBirthday(String),
    InvalidGap(String),
    InvalidFormat(String),
}

impl WatchError {
    pub open spec fn message_spec(&self) -> Seq<char> {
        match self {
            WatchError::InvalidDescriptor(m) => m@,
            WatchError::InvalidChangeDescriptor(m) => m@,
            WatchError::InvalidBirthday(m) => m@,
            WatchError::InvalidGap(m) => m@,
            WatchError::InvalidFormat(m) => m@,
        }
    }

    /// The error's message.
    pub fn message(&self) -> (r: String)
        ensures
            r@ == self.message_spec(),
    {
        match self {
            WatchError::InvalidDescriptor(m) => m.clone(),
            WatchError::InvalidChangeDescriptor(m) => m.clone(),
            WatchError::InvalidBirthday(m) => m.clone(),
            WatchError::InvalidGap(m) => m.clone(),
            WatchError::InvalidFormat(m) => m.clone(),
        }
    }
}

/// The arguments of the command that adds a wallet.
#[derive(Debug)]
pub struct AddArgs {
    /// External descriptor of the wallet.
    pub descriptor: String,
    /// Internal (change) descriptor of the wallet.
    pub change_descriptor: Option<String>,
    /// Block height the wallet was created at.
    pub birthday: Option<u32>,
    /// Number of unused addresses to look ahead.
    pub gap: Option<u32>,
}

/// A transaction the wallet has already reported: its id and its consensus encoding.
#[derive(Debug)]
pub struct SeenTx {
    pub txid: String,
    pub raw: Vec<u8>,
}

/// Why a wallet's deterministic name could not be computed.
#[derive(Debug)]
pub enum NameError {
    /// The wallet's network is missing or unknown.
    Network(NetworkError),
    /// A descriptor does not parse, or does not suit the network.
    Descriptor(bdk::Error),
}

#[verifier::external_type_specification]
#[verifier::external_body]
pub struct ExBdkError(bdk::Error);

/// The deterministic name of the wallet with these descriptors on this
/// network, or `None` where they do not form a wallet there.
pub uninterp spec fn wallet_name_of(
    descriptor: Seq<char>,
    change_descriptor: Option<Seq<char>>,
    network: Network,
) -> Option<Seq<char>>;

pub open spec fn opt_text(o: Option<String>) -> Option<Seq<char>> {
    match o {
        Some(s) => Some(s@),
        None => None,
    }
}

/// Relies on bdk::wallet::wallet_name_from_descriptor: it parses the
/// descriptors for the network and concatenates their checksums, so the result
/// depends on its arguments alone.
#[verifier::external_body]
fn name_from_descriptor(descriptor: &str, change_descriptor: &Option<String>, network: Network) -> (r:
    Result<String, bdk::Error>)
    ensures
        r is Ok <==> wallet_name_of(descriptor@, opt_text(*change_descriptor), network) is Some,
        r is Ok ==> r->Ok_0@ == wallet_name_of(descriptor@, opt_text(*change_descriptor), network)->0,
{
    let net = match network {
        Network::Bitcoin => bdk::bitcoin::Network::Bitcoin,
        Network::Testnet => bdk::bitcoin::Network::Testnet,
        Network::Signet => bdk::bitcoin::Network::Signet,
        Network::Regtest => bdk::bitcoin::Network::Regtest,
    };
    let secp = bdk::bitcoin::secp256k1::Secp256k1::new();
    bdk::wallet::wallet_name_from_descriptor(descriptor, change_descriptor.as_deref(), net, &secp)
}

/// A watched descriptor wallet.
#[derive(Debug)]
pub struct DescriptorWallet {
    pub descriptor: String,
    pub change_descriptor: Option<String>,
    pub birthday: Option<u32>,
    pub gap: Option<u32>,
    /// The height the wallet has been synced to.
    pub last_synced: Option<u32>,
    /// The transactions already reported, in the order they were first seen.
    pub transactions: Vec<SeenTx>,
    pub network: Option<String>,
}

/// The network a wallet's network name stands for.
pub open spec fn network_of(network: Option<String>) -> Option<Network> {
    match network {
        Some(n) => network_named(n@),
        None => None,
    }
}

/// The height a wallet has synced to after a scan that reached `to_height`:
/// it only moves up.
pub open spec fn advanced_height(last: Option<u32>, to_height: u32) -> u32 {
    match last {
        Some(h) => if h > to_height {
            h
        } else {
            to_height
        },
        None => to_height,
    }
}

/// The ids of the transactions in `seen`.
pub open spec fn seen_ids(seen: Seq<SeenTx>) -> Set<Seq<char>> {
    Set::new(|id: Seq<char>| exists|i: int| 0 <= i < seen.len() && (#[trigger] seen[i]).txid@ == id)
}

/// What `seen` records: each transaction's id and encoding, in order.
pub open spec fn seen_entries(seen: Seq<SeenTx>) -> Seq<(Seq<char>, Seq<u8>)> {
    seen.map_values(|t: SeenTx| (t.txid@, t.raw@))
}

pub open spec fn tx_entries(txs: Seq<WalletTx>) -> Seq<(Seq<char>, Seq<u8>)> {
    txs.map_values(|t: WalletTx| (t.txid@, t.raw@))
}

/// A transaction is new when it is confirmed and its id has not been seen.
pub open spec fn is_new(seen: Set<Seq<char>>, tx: WalletTx) -> bool {
    tx.position is Confirmed && !seen.contains(tx.txid@)
}

/// The ids seen after the first `n` transactions of `txs` are taken in.
pub open spec fn seen_after(seen: Set<Seq<char>>, txs: Seq<WalletTx>, n: int) -> Set<Seq<char>>
    decreases n,
{
    if n <= 0 {
        seen
    } else if txs[n - 1].position is Confirmed {
        seen_after(seen, txs, n - 1).insert(txs[n - 1].txid@)
    } else {
        seen_after(seen, txs, n - 1)
    }
}

/// The new transactions among the first `n` of `txs`, in order.
pub open spec fn fresh_txs(seen: Set<Seq<char>>, txs: Seq<WalletTx>, n: int) -> Seq<WalletTx>
    decreases n,
{
    if n <= 0 {
        seq![]
    } else if is_new(seen_after(seen, txs, n - 1), txs[n - 1]) {
        fresh_txs(seen, txs, n - 1).push(txs[n - 1])
    } else {
        fresh_txs(seen, txs, n - 1)
    }
}

/// The events of the transactions `txs`, one after another.
pub open spec fn events_of(name: String, coin: String, txs: Seq<WalletTx>) -> Seq<CoinEvent>
    decreases txs.len(),
{
    if txs.len() == 0 {
        seq![]
    } else {
        events_of(name, coin, txs.drop_last()) + tx_events(name, coin, txs.last())
    }
}

pub proof fn lemma_seen_ids_push(seen: Seq<SeenTx>, t: SeenTx)
    ensures
        seen_ids(seen.push(t)) == seen_ids(seen).insert(t.txid@),
{
    let a = seen_ids(seen.push(t));
    let b = seen_ids(seen).insert(t.txid@);
    assert forall|id: Seq<char>| a.contains(id) <==> b.contains(id) by {
        if a.contains(id) {
            let i = choose|i: int| 0 <= i < seen.len() + 1 && (#[trigger] seen.push(t)[i]).txid@ == id;
            if i < seen.len() {
                assert(seen[i] == seen.push(t)[i]);
            }
        }
        if b.contains(id) && id != t.txid@ {
            let i = choose|i: int| 0 <= i < seen.len() && (#[trigger] seen[i]).txid@ == id;
            assert(seen.push(t)[i] == seen[i]);
        }
        if id == t.txid@ {
            assert(seen.push(t)[seen.len() as int] == t);
        }
    }
    assert(a =~= b);
}

impl DescriptorWallet {
    /// Each transaction is recorded once: no two seen entries share an id.
    pub open spec fn wf(&self) -> bool {
        forall|i: int, j: int|
            0 <= i < j < self.transactions@.len() ==> (#[trigger] self.transactions@[i]).txid@
                != (#[trigger] self.transactions@[j]).txid@
    }

    /// A wallet watching `descriptor` alone, with nothing else set.
    pub fn from_descriptor(descriptor: &str) -> (r: Self)
        ensures
            r.descriptor@ == descriptor@,
            r.change_descriptor is None,
            r.birthday is None,
            r.gap is None,
            r.last_synced is None,
            r.transactions@.len() == 0,
            r.network is None,
    {
        DescriptorWallet {
            descriptor: descriptor.to_owned(),
            change_descriptor: None,
            birthday: None,
            gap: None,
            last_synced: None,
            transactions: Vec::new(),
            network: None,
        }
    }

    /// A new wallet from the arguments of the add command, on `network`.
    pub fn from_args(args: AddArgs, network: String) -> (r: Result<Self, WatchError>)
        ensures
            r is Ok,
            r->Ok_0.descriptor == args.descriptor,
            r->Ok_0.change_descriptor == args.change_descriptor,
            r->Ok_0.birthday == args.birthday,
            r->Ok_0.gap == args.gap,
            r->Ok_0.last_synced is None,
            r->Ok_0.transactions@.len() == 0,
            r->Ok_0.network == Some(network),
    {
        Ok(DescriptorWallet {
            descriptor: args.descriptor,
            change_descriptor: args.change_descriptor,
            birthday: args.birthday,
            gap: args.gap,
            last_synced: None,
            transactions: Vec::new(),
            network: Some(network),
        })
    }

    /// Sets the change descriptor, which must not be empty.
    pub fn with_change_descriptor(self, change_descriptor: &str) -> (r: Result<Self, WatchError>)
        ensures
            change_descriptor@.len() == 0 ==> r is Err && r->Err_0 is InvalidChangeDescriptor
                && r->Err_0.message_spec() == "change_descriptor is empty"@,
            change_descriptor@.len() > 0 ==> r is Ok && r->Ok_0.change_descriptor is Some
                && r->Ok_0.change_descriptor->0@ == change_descriptor@ && r->Ok_0.descriptor
                == self.descriptor && r->Ok_0.birthday == self.birthday && r->Ok_0.gap
                == self.gap && r->Ok_0.last_synced == self.last_synced && r->Ok_0.transactions
                == self.transactions && r->Ok_0.network == self.network,
    {
        if change_descriptor.unicode_len() == 0 {
            Err(WatchError::InvalidChangeDescriptor("change_descriptor is empty".to_owned()))
        } else {
            Ok(DescriptorWallet { change_descriptor: Some(change_descriptor.to_owned()), ..self })
        }
    }

    /// Sets the birthday, which must fit in 32 bits.
    pub fn with_birthday(self, birthday: u64) -> (r: Result<Self, WatchError>)
        ensures
            birthday > u32::MAX ==> r is Err && r->Err_0 is InvalidBirthday
                && r->Err_0.message_spec()
                == "birthday must be between 0 and 4294967295. Received: "@ + decimal(
                birthday as nat,
            ),
            birthday <= u32::MAX ==> r is Ok && r->Ok_0.birthday == Some(birthday as u32)
                && r->Ok_0.descriptor == self.descriptor && r->Ok_0.change_descriptor
                == self.change_descriptor && r->Ok_0.gap == self.gap && r->Ok_0.last_synced
                == self.last_synced && r->Ok_0.transactions == self.transactions
                && r->Ok_0.network == self.network,
    {
        if birthday > u32::MAX as u64 {
            let n = decimal_string(birthday);
            Err(
                WatchError::InvalidBirthday(
                    join2("birthday must be between 0 and 4294967295. Received: ", n.as_str()),
                ),
            )
        } else {
            Ok(DescriptorWallet { birthday: Some(birthday as u32), ..self })
        }
    }

    /// Sets the gap limit, which must fit in 31 bits.
    pub fn with_gap(self, gap: u64) -> (r: Result<Self, WatchError>)
        ensures
            gap > u32::MAX / 2 ==> r is Err && r->Err_0 is InvalidGap && r->Err_0.message_spec()
                == "gap must be between 0 and 2147483647. Received: "@ + decimal(gap as nat),
            gap <= u32::MAX / 2 ==> r is Ok && r->Ok_0.gap == Some(gap as u32)
                && r->Ok_0.descriptor == self.descriptor && r->Ok_0.change_descriptor
                == self.change_descriptor && r->Ok_0.birthday == self.birthday
                && r->Ok_0.last_synced == self.last_synced && r->Ok_0.transactions
                == self.transactions && r->Ok_0.network == self.network,
    {
        if gap > u32::MAX as u64 / 2 {
            let n = decimal_string(gap);
            Err(
                WatchError::InvalidGap(
                    join2("gap must be between 0 and 2147483647. Received: ", n.as_str()),
                ),
            )
        } else {
            Ok(DescriptorWallet { gap: Some(gap as u32), ..self })
        }
    }

    /// Sets the network name.
    pub fn with_network(self, network: String) -> (r: Self)
        ensures
            r.network == Some(network),
            r.descriptor == self.descriptor,
            r.change_descriptor == self.change_descriptor,
            r.birthday == self.birthday,
            r.gap == self.gap,
            r.last_synced == self.last_synced,
            r.transactions == self.transactions,
    {
        DescriptorWallet { network: Some(network), ..self }
    }

    /// Records the height the wallet has been synced to.
    pub fn update_last_synced(&mut self, height: u32)
        ensures
            final(self).last_synced == Some(height),
            final(self).descriptor == old(self).descriptor,
            final(self).change_descriptor == old(self).change_descriptor,
            final(self).birthday == old(self).birthday,
            final(self).gap == old(self).gap,
            final(self).transactions == old(self).transactions,
            final(self).network == old(self).network,
    {
        self.last_synced = Some(height);
    }

    /// The network the wallet lives on.
    pub fn get_network(&self) -> (r: Result<Network, NetworkError>)
        ensures
            r is Ok <==> network_of(self.network) is Some,
            r is Ok ==> r->Ok_0 == network_of(self.network)->0,
    {
        parse_network(&self.network)
    }

    /// The deterministic name of the wallet, for its descriptors and network.
    pub fn get_name(&self) -> (r: Result<String, NameError>)
        ensures
            network_of(self.network) is None ==> r is Err && r->Err_0 is Network,
            network_of(self.network) is Some ==> {
                let name = wallet_name_of(
                    self.descriptor@,
                    opt_text(self.change_descriptor),
                    network_of(self.network)->0,
                );
                &&& name is None ==> r is Err && r->Err_0 is Descriptor
                &&& name is Some ==> r is Ok && r->Ok_0@ == name->0
            },
    {
        match parse_network(&self.network) {
            Err(e) => Err(NameError::Network(e)),
            Ok(net) => match name_from_descriptor(self.descriptor.as_str(), &self.change_descriptor, net) {
                Ok(n) => Ok(n),
                Err(e) => Err(NameError::Descriptor(e)),
            },
        }
    }

    /// A new wallet from its parameters, each checked as the `with_*` steps
    /// check it: an empty change descriptor, a birthday beyond 32 bits or a gap
    /// beyond 31 bits is an error, reported in that order.
    pub fn new(
        descriptor: &str,
        change_descriptor: Option<&str>,
        birthday: Option<u64>,
        gap: Option<u64>,
        network: Option<String>,
    ) -> (r: Result<Self, WatchError>)
        ensures
            change_descriptor is Some && change_descriptor->0@.len() == 0 ==> r is Err
                && r->Err_0 is InvalidChangeDescriptor,
            !(change_descriptor is Some && change_descriptor->0@.len() == 0) && birthday is Some
                && birthday->0 > u32::MAX ==> r is Err && r->Err_0 is InvalidBirthday,
            !(change_descriptor is Some && change_descriptor->0@.len() == 0) && !(birthday is Some
                && birthday->0 > u32::MAX) && gap is Some && gap->0 > u32::MAX / 2 ==> r is Err
                && r->Err_0 is InvalidGap,
            r is Err <==> (change_descriptor is Some && change_descriptor->0@.len() == 0) || (
            birthday is Some && birthday->0 > u32::MAX) || (gap is Some && gap->0 > u32::MAX / 2),
            r is Ok ==> {
                let w = r->Ok_0;
                &&& w.descriptor@ == descriptor@
                &&& w.change_descriptor is Some <==> change_descriptor is Some
                &&& w.change_descriptor is Some ==> w.change_descriptor->0@ == change_descriptor->0@
                &&& w.birthday == match birthday {
                    Some(b) => Some(b as u32),
                    None => None,
                }
                &&& w.gap == match gap {
                    Some(g) => Some(g as u32),
                    None => None,
                }
                &&& w.network == network
                &&& w.last_synced is None
                &&& w.transactions@.len() == 0
            },
    {
        let mut params = DescriptorWallet::from_descriptor(descriptor);
        if let Some(cd) = change_descriptor {
            params = match params.with_change_descriptor(cd) {
                Ok(p) => p,
                Err(e) => return Err(e),
            };
        }
        if let Some(b) = birthday {
            params = match params.with_birthday(b) {
                Ok(p) => p,
                Err(e) => return Err(e),
            };
        }
        if let Some(g) = gap {
            params = match params.with_gap(g) {
                Ok(p) => p,
                Err(e) => return Err(e),
            };
        }
        if let Some(n) = network {
            params = params.with_network(n);
        }
        Ok(params)
    }

    /// The events of one transaction for this wallet, under its deterministic
    /// name and its network's currency code.
    pub fn notifications_for_tx(&self, tx: &WalletTx) -> (r: Result<Vec<CoinEvent>, NameError>)
        requires
            tx_fits(*tx),
        ensures
            network_of(self.network) is None ==> r is Err && r->Err_0 is Network,
            network_of(self.network) is Some ==> {
                let name = wallet_name_of(
                    self.descriptor@,
                    opt_text(self.change_descriptor),
                    network_of(self.network)->0,
                );
                &&& name is None ==> r is Err && r->Err_0 is Descriptor
                &&& name is Some ==> r is Ok && exists|n: String, c: String|
                    n@ == name->0 && c@ == currency_of(network_of(self.network)->0) && r->Ok_0@
                        == tx_events(n, c, *tx)
            },
    {
        let name = match self.get_name() {
            Ok(n) => n,
            Err(e) => return Err(e),
        };
        let coin = match parse_currency(&self.network) {
            Ok(c) => c,
            Err(e) => return Err(NameError::Network(e)),
        };
        Ok(tx_events_for(&name, &coin, tx))
    }

    /// Takes in a finished sync: records the new transactions as seen and the
    /// height reached, and returns the events of the new transactions under the
    /// wallet's deterministic name and currency code. Where the name cannot be
    /// computed nothing changes.
    pub fn process_sync(&mut self, to_height: u32, transactions: Vec<WalletTx>) -> (r: Result<
        Vec<CoinEvent>,
        NameError,
    >)
        requires
            forall|k: int| 0 <= k < transactions@.len() ==> tx_fits(#[trigger] transactions@[k]),
        ensures
            network_of(old(self).network) is None ==> r is Err && r->Err_0 is Network,
            network_of(old(self).network) is Some ==> {
                let name = wallet_name_of(
                    old(self).descriptor@,
                    opt_text(old(self).change_descriptor),
                    network_of(old(self).network)->0,
                );
                &&& name is None ==> r is Err && r->Err_0 is Descriptor
                &&& name is Some ==> r is Ok && exists|n: String, c: String|
                    n@ == name->0 && c@ == currency_of(network_of(old(self).network)->0) && r->Ok_0@
                        == events_of(
                        n,
                        c,
                        fresh_txs(
                            seen_ids(old(self).transactions@),
                            transactions@,
                            transactions@.len() as int,
                        ),
                    )
            },
            r is Err ==> *final(self) == *old(self),
            old(self).wf() ==> final(self).wf(),
            r is Ok ==> final(self).last_synced == Some(advanced_height(old(self).last_synced, to_height))
                && seen_ids(final(self).transactions@) == seen_after(
                seen_ids(old(self).transactions@),
                transactions@,
                transactions@.len() as int,
            ) && seen_entries(final(self).transactions@) == seen_entries(old(self).transactions@)
                + tx_entries(
                fresh_txs(seen_ids(old(self).transactions@), transactions@, transactions@.len() as int),
            ),
            r is Ok ==> final(self).descriptor == old(self).descriptor && final(self).change_descriptor
                == old(self).change_descriptor && final(self).birthday == old(self).birthday
                && final(self).gap == old(self).gap && final(self).network == old(self).network,
    {
        let name = match self.get_name() {
            Ok(n) => n,
            Err(e) => return Err(e),
        };
        let coin = match parse_currency(&self.network) {
            Ok(c) => c,
            Err(e) => return Err(NameError::Network(e)),
        };
        Ok(self.record_sync(&name, &coin, to_height, transactions))
    }

    /// Whether a transaction with id `txid` has been reported.
    pub fn has_seen(&self, txid: &String) -> (r: bool)
        ensures
            r == seen_ids(self.transactions@).contains(txid@),
    {
        let mut i: usize = 0;
        while i < self.transactions.len()
            invariant
                i <= self.transactions.len(),
                forall|k: int| 0 <= k < i ==> (#[trigger] self.transactions@[k]).txid@ != txid@,
            decreases self.transactions.len() - i,
        {
            if self.transactions[i].txid == *txid {
                assert(self.transactions@[i as int].txid@ == txid@);
                return true;
            }
            i = i + 1;
        }
        false
    }

    /// Takes in the wallet's transactions after a sync and returns the new ones:
    /// confirmed, and with an id not seen before. Each new one is recorded as
    /// seen; an unconfirmed one is neither returned nor recorded.
    pub fn update_transactions(&mut self, transactions: Vec<WalletTx>) -> (r: Vec<WalletTx>)
        ensures
            r@ == fresh_txs(seen_ids(old(self).transactions@), transactions@, transactions@.len() as int),
            seen_entries(final(self).transactions@) == seen_entries(old(self).transactions@)
                + tx_entries(r@),
            seen_ids(final(self).transactions@) == seen_after(
                seen_ids(old(self).transactions@),
                transactions@,
                transactions@.len() as int,
            ),
            final(self).descriptor == old(self).descriptor,
            final(self).change_descriptor == old(self).change_descriptor,
            final(self).birthday == old(self).birthday,
            final(self).gap == old(self).gap,
            final(self).last_synced == old(self).last_synced,
            final(self).network == old(self).network,
            old(self).wf() ==> final(self).wf(),
            forall|k: int| 0 <= k < r@.len() ==> (#[trigger] r@[k]).position is Confirmed,
    {
        let ghost orig = transactions@;
        let ghost was_wf = self.wf();
        proof {
            lemma_seen_never_new(seen_ids(self.transactions@), orig, orig.len() as int);
        }
        let ghost seen0 = seen_ids(self.transactions@);
        let ghost entries0 = seen_entries(self.transactions@);
        let mut rest = transactions;
        let total: usize = rest.len();
        let mut fresh: Vec<WalletTx> = Vec::new();
        let mut i: usize = 0;
        while rest.len() > 0
            invariant
                i + rest@.len() == orig.len(),
                orig.len() == total,
                rest@ == orig.subrange(i as int, orig.len() as int),
                fresh@ == fresh_txs(seen0, orig, i as int),
                seen_ids(self.transactions@) == seen_after(seen0, orig, i as int),
                seen_entries(self.transactions@) == entries0 + tx_entries(fresh@),
                self.descriptor == old(self).descriptor,
                self.change_descriptor == old(self).change_descriptor,
                self.birthday == old(self).birthday,
                self.gap == old(self).gap,
                self.last_synced == old(self).last_synced,
                self.network == old(self).network,
                was_wf == old(self).wf(),
                was_wf ==> self.wf(),
            decreases rest.len(),
        {
            let tx = rest.remove(0);
            assert(tx == orig[i as int]);
            let confirmed = match tx.position {
                crate::events::ChainPosition::Confirmed { .. } => true,
                crate::events::ChainPosition::Unconfirmed => false,
            };
            if confirmed && !self.has_seen(&tx.txid) {
                let seen = SeenTx { txid: tx.txid.clone(), raw: tx.raw.clone() };
                assert(seen.raw@ =~= tx.raw@);
                proof {
                    lemma_seen_ids_push(self.transactions@, seen);
                    assert(seen_entries(self.transactions@.push(seen)) =~= seen_entries(
                        self.transactions@,
                    ).push((seen.txid@, seen.raw@)));
                    assert(tx_entries(fresh@.push(tx)) =~= tx_entries(fresh@).push(
                        (tx.txid@, tx.raw@),
                    ));
                }
                let ghost before = self.transactions@;
                self.transactions.push(seen);
                fresh.push(tx);
                proof {
                    if was_wf {
                        assert forall|a: int, b: int|
                            0 <= a < b < self.transactions@.len() implies (#[trigger] self.transactions@[a]).txid@
                            != (#[trigger] self.transactions@[b]).txid@ by {
                            assert(self.transactions@[a] == before[a]);
                            if b < before.len() {
                                assert(self.transactions@[b] == before[b]);
                            } else {
                                assert(!seen_ids(before).contains(tx.txid@));
                                if before[a].txid@ == tx.txid@ {
                                    assert(seen_ids(before).contains(tx.txid@));
                                }
                            }
                        }
                    }
                }
            } else {
                proof {
                    if confirmed {
                        assert(seen_after(seen0, orig, i as int).insert(tx.txid@) =~= seen_after(
                            seen0,
                            orig,
                            i as int,
                        ));
                    }
                }
            }
            i = i + 1;
        }
        fresh
    }

    /// Takes in a finished sync for the wallet named `name`, whose currency code
    /// is `coin`: records the new transactions as seen and the height reached,
    /// and returns the events of the new transactions.
    pub fn record_sync(
        &mut self,
        name: &String,
        coin: &String,
        to_height: u32,
        transactions: Vec<WalletTx>,
    ) -> (r: Vec<CoinEvent>)
        requires
            forall|k: int| 0 <= k < transactions@.len() ==> tx_fits(#[trigger] transactions@[k]),
        ensures
            r@ == events_of(
                *name,
                *coin,
                fresh_txs(seen_ids(old(self).transactions@), transactions@, transactions@.len() as int),
            ),
            seen_ids(final(self).transactions@) == seen_after(
                seen_ids(old(self).transactions@),
                transactions@,
                transactions@.len() as int,
            ),
            seen_entries(final(self).transactions@) == seen_entries(old(self).transactions@)
                + tx_entries(
                fresh_txs(seen_ids(old(self).transactions@), transactions@, transactions@.len() as int),
            ),
            final(self).last_synced == Some(advanced_height(old(self).last_synced, to_height)),
            final(self).descriptor == old(self).descriptor,
            final(self).change_descriptor == old(self).change_descriptor,
            final(self).birthday == old(self).birthday,
            final(self).gap == old(self).gap,
            final(self).network == old(self).network,
            old(self).wf() ==> final(self).wf(),
    {
        let ghost orig = transactions@;
        let ghost seen0 = seen_ids(self.transactions@);
        proof {
            lemma_fresh_from(seen0, orig, orig.len() as int);
        }
        let fresh = self.update_transactions(transactions);
        let mut events: Vec<CoinEvent> = Vec::new();
        let mut i: usize = 0;
        while i < fresh.len()
            invariant
                i <= fresh.len(),
                forall|k: int| 0 <= k < fresh@.len() ==> tx_fits(#[trigger] fresh@[k]),
                events@ == events_of(*name, *coin, fresh@.subrange(0, i as int)),
            decreases fresh.len() - i,
        {
            let mut evs = tx_events_for(name, coin, &fresh[i]);
            proof {
                assert(fresh@.subrange(0, i + 1).drop_last() =~= fresh@.subrange(0, i as int));
            }
            events.append(&mut evs);
            i = i + 1;
        }
        proof {
            assert(fresh@.subrange(0, fresh@.len() as int) =~= fresh@);
        }
        let height = match self.last_synced {
            Some(h) => if h > to_height {
                h
            } else {
                to_height
            },
            None => to_height,
        };
        self.update_last_synced(height);
        events
    }
}

/// Every new transaction is one of the inputs.
pub proof fn lemma_fresh_from(seen: Set<Seq<char>>, txs: Seq<WalletTx>, n: int)
    requires
        0 <= n <= txs.len(),
    ensures
        forall|k: int|
            0 <= k < fresh_txs(seen, txs, n).len() ==> exists|j: int|
                0 <= j < n && txs[j] == #[trigger] fresh_txs(seen, txs, n)[k],
    decreases n,
{
    if n > 0 {
        lemma_fresh_from(seen, txs, n - 1);
        let f = fresh_txs(seen, txs, n);
        let p = fresh_txs(seen, txs, n - 1);
        assert forall|k: int| 0 <= k < f.len() implies exists|j: int|
            0 <= j < n && txs[j] == #[trigger] f[k] by {
            if k < p.len() {
                assert(f[k] == p[k]);
                let j = choose|j: int| 0 <= j < n - 1 && txs[j] == p[k];
                assert(txs[j] == f[k]);
            } else {
                assert(txs[n - 1] == f[k]);
            }
        }
    }
}

/// The ids seen only grow as transactions are taken in.
pub proof fn lemma_seen_after_grows(seen: Set<Seq<char>>, txs: Seq<WalletTx>, m: int, n: int)
    requires
        0 <= m <= n <= txs.len(),
    ensures
        seen_after(seen, txs, m).subset_of(seen_after(seen, txs, n)),
    decreases n - m,
{
    if m < n {
        lemma_seen_after_grows(seen, txs, m, n - 1);
    }
}

/// A confirmed transaction that has been taken in is recorded as seen.
pub proof fn lemma_confirmed_recorded(seen: Set<Seq<char>>, txs: Seq<WalletTx>, j: int, n: int)
    requires
        0 <= j < n <= txs.len(),
        txs[j].position is Confirmed,
    ensures
        seen_after(seen, txs, n).contains(txs[j].txid@),
{
    lemma_seen_after_grows(seen, txs, j + 1, n);
}

/// A new transaction is confirmed, was not seen before, is recorded once taken
/// in, and no two new transactions share an id: a transaction already seen is
/// never reported again, even when its block is processed again.
pub proof fn lemma_seen_never_new(seen: Set<Seq<char>>, txs: Seq<WalletTx>, n: int)
    requires
        0 <= n <= txs.len(),
    ensures
        seen.subset_of(seen_after(seen, txs, n)),
        forall|k: int|
            0 <= k < fresh_txs(seen, txs, n).len() ==> {
                &&& (#[trigger] fresh_txs(seen, txs, n)[k]).position is Confirmed
                &&& !seen.contains(fresh_txs(seen, txs, n)[k].txid@)
                &&& seen_after(seen, txs, n).contains(fresh_txs(seen, txs, n)[k].txid@)
            },
        forall|j: int, k: int|
            0 <= j < k < fresh_txs(seen, txs, n).len() ==> (#[trigger] fresh_txs(seen, txs, n)[j]).txid@
                != (#[trigger] fresh_txs(seen, txs, n)[k]).txid@,
    decreases n,
{
    lemma_seen_after_grows(seen, txs, 0, n);
    if n > 0 {
        lemma_seen_never_new(seen, txs, n - 1);
        lemma_seen_after_grows(seen, txs, n - 1, n);
        let f = fresh_txs(seen, txs, n);
        let p = fresh_txs(seen, txs, n - 1);
        assert forall|k: int| 0 <= k < p.len() implies f[k] == p[k] by {}
    }
}

/// Unconfirmed transactions are suppressed: where every transaction with id
/// `id` is unconfirmed and `id` was not seen, no new transaction has that id
/// and `id` is not recorded as seen.
pub proof fn lemma_unconfirmed_never_seen(
    seen: Set<Seq<char>>,
    txs: Seq<WalletTx>,
    id: Seq<char>,
    n: int,
)
    requires
        0 <= n <= txs.len(),
        !seen.contains(id),
        forall|j: int| 0 <= j < txs.len() && (#[trigger] txs[j]).txid@ == id ==> txs[j].position is Unconfirmed,
    ensures
        !seen_after(seen, txs, n).contains(id),
        forall|k: int| 0 <= k < fresh_txs(seen, txs, n).len() ==> (#[trigger] fresh_txs(seen, txs, n)[k]).txid@ != id,
    decreases n,
{
    if n > 0 {
        lemma_unconfirmed_never_seen(seen, txs, id, n - 1);
        let f = fresh_txs(seen, txs, n);
        let p = fresh_txs(seen, txs, n - 1);
        assert forall|k: int| 0 <= k < f.len() implies (#[trigger] f[k]).txid@ != id by {
            if k < p.len() {
                assert(f[k] == p[k]);
            }
        }
    }
}

/// Resyncing is idempotent: taking in the same transactions a second time
/// finds nothing new, records nothing more, and gives no events.
pub proof fn lemma_resync_idempotent(
    name: String,
    coin: String,
    seen: Set<Seq<char>>,
    txs: Seq<WalletTx>,
)
    ensures
        fresh_txs(seen_after(seen, txs, txs.len() as int), txs, txs.len() as int)
            == Seq::<WalletTx>::empty(),
        seen_after(seen_after(seen, txs, txs.len() as int), txs, txs.len() as int) == seen_after(
            seen,
            txs,
            txs.len() as int,
        ),
        events_of(
            name,
            coin,
            fresh_txs(seen_after(seen, txs, txs.len() as int), txs, txs.len() as int),
        ) == Seq::<CoinEvent>::empty(),
{
    lemma_resync_prefix(seen, txs, txs.len() as int);
}

proof fn lemma_resync_prefix(seen: Set<Seq<char>>, txs: Seq<WalletTx>, n: int)
    requires
        0 <= n <= txs.len(),
    ensures
        fresh_txs(seen_after(seen, txs, txs.len() as int), txs, n) == Seq::<WalletTx>::empty(),
        seen_after(seen_after(seen, txs, txs.len() as int), txs, n) == seen_after(
            seen,
            txs,
            txs.len() as int,
        ),
    decreases n,
{
    let s1 = seen_after(seen, txs, txs.len() as int);
    if n > 0 {
        lemma_resync_prefix(seen, txs, n - 1);
        if txs[n - 1].position is Confirmed {
            lemma_confirmed_recorded(seen, txs, n - 1, txs.len() as int);
            assert(s1.insert(txs[n - 1].txid@) =~= s1);
        }
    }
}

/// The end-to-end example: a wallet synced to `last` takes in a scan that
/// reached `to_height` at or above it, and one new confirmed transaction that
/// has inputs, none owned, and pays the wallet at its first output only. The
/// pass gives exactly that output's deposit, records the transaction as seen,
/// and the wallet reaches `to_height`.
pub proof fn lemma_single_receive_sync(
    name: String,
    coin: String,
    seen: Set<Seq<char>>,
    tx: WalletTx,
    last: u32,
    to_height: u32,
)
    requires
        !seen.contains(tx.txid@),
        last <= to_height,
        tx.position is Confirmed,
        tx.inputs.len() > 0,
        no_input_owned(tx),
        tx.outputs.len() >= 1,
        tx.outputs@[0].owned,
        forall|k: int| 1 <= k < tx.outputs.len() ==> !(#[trigger] tx.outputs@[k]).owned,
    ensures
        events_of(name, coin, fresh_txs(seen, seq![tx], 1)) == seq![
            deposit_event(Account::Wallet(name), coin, tx, 0),
        ],
        seen_after(seen, seq![tx], 1).contains(tx.txid@),
        advanced_height(Some(last), to_height) == to_height,
{
    let txs = seq![tx];
    assert(fresh_txs(seen, txs, 0) =~= Seq::<WalletTx>::empty());
    assert(fresh_txs(seen, txs, 1) =~= seq![tx]);
    assert(seq![tx].drop_last() =~= Seq::<WalletTx>::empty());
    lemma_single_receive(name, coin, tx);
    assert(seq![tx].last() == tx);
    assert(events_of(name, coin, Seq::<WalletTx>::empty()) =~= Seq::<CoinEvent>::empty());
    assert(events_of(name, coin, seq![tx]) =~= events_of(name, coin, seq![tx].drop_last())
        + tx_events(name, coin, tx));
    assert(events_of(name, coin, seq![tx]) =~= tx_events(name, coin, tx));
}

} // verus!
