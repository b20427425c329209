//! The collection of watched wallets, keyed by their deterministic names.
use vstd::prelude::*;
use crate::credentials::RpcAuth;
use crate::wallet::{network_of, opt_text, wallet_name_of, DescriptorWallet, NameError};

verus! {

/// No two entries share a name.
pub open spec fn names_unique(s: Seq<(String, DescriptorWallet)>) -> bool {
    forall|i: int, j: int| 0 <= i < j < s.len() ==> (#[trigger] s[i]).0@ != (#[trigger] s[j]).0@
}

/// The map from names to wallets that `s` holds.
pub open spec fn entries_map(s: Seq<(String, DescriptorWallet)>) -> Map<Seq<char>, DescriptorWallet>
    decreases s.len(),
{
    if s.len() == 0 {
        Map::empty()
    } else {
        entries_map(s.drop_last()).insert(s.last().0@, s.last().1)
    }
}

proof fn lemma_entries_dom(s: Seq<(String, DescriptorWallet)>, k: Seq<char>)
    ensures
        entries_map(s).dom().contains(k) <==> exists|j: int| 0 <= j < s.len() && (#[trigger] s[j]).0@ == k,
    decreases s.len(),
{
    if s.len() > 0 {
        lemma_entries_dom(s.drop_last(), k);
        if exists|j: int| 0 <= j < s.len() && (#[trigger] s[j]).0@ == k {
            let j = choose|j: int| 0 <= j < s.len() && (#[trigger] s[j]).0@ == k;
            if j < s.len() - 1 {
                assert(s.drop_last()[j] == s[j]);
            }
        }
        if exists|j: int| 0 <= j < s.len() - 1 && (#[trigger] s.drop_last()[j]).0@ == k {
            let j = choose|j: int| 0 <= j < s.len() - 1 && (#[trigger] s.drop_last()[j]).0@ == k;
            assert(s[j] == s.drop_last()[j]);
        }
    }
}

proof fn lemma_entries_update(s: Seq<(String, DescriptorWallet)>, i: int, e: (String, DescriptorWallet))
    requires
        names_unique(s),
        0 <= i < s.len(),
        e.0@ == s[i].0@,
    ensures
        entries_map(s.update(i, e)) == entries_map(s).insert(e.0@, e.1),
    decreases s.len(),
{
    let u = s.update(i, e);
    if i == s.len() - 1 {
        assert(u.drop_last() =~= s.drop_last());
        assert(entries_map(u) =~= entries_map(s).insert(e.0@, e.1));
    } else {
        assert(u.drop_last() =~= s.drop_last().update(i, e));
        lemma_entries_update(s.drop_last(), i, e);
        assert(s.last().0@ != e.0@);
        assert(entries_map(u) =~= entries_map(s).insert(e.0@, e.1));
    }
}

proof fn lemma_entries_remove(s: Seq<(String, DescriptorWallet)>, i: int)
    requires
        names_unique(s),
        0 <= i < s.len(),
    ensures
        entries_map(s.remove(i)) == entries_map(s).remove(s[i].0@),
    decreases s.len(),
{
    let r = s.remove(i);
    let k = s[i].0@;
    if i == s.len() - 1 {
        assert(r =~= s.drop_last());
        lemma_entries_dom(s.drop_last(), k);
        assert forall|j: int| 0 <= j < s.len() - 1 implies (#[trigger] s.drop_last()[j]).0@ != k by {
            assert(s.drop_last()[j] == s[j]);
        }
        assert(entries_map(r) =~= entries_map(s).remove(k));
    } else {
        assert(r.drop_last() =~= s.drop_last().remove(i));
        lemma_entries_remove(s.drop_last(), i);
        assert(s.last().0@ != k);
        assert(r.last() == s.last());
        assert(entries_map(r) =~= entries_map(s).remove(k));
    }
}

/// The plugin's state: the watched wallets and how to reach the full node.
#[derive(Debug)]
pub struct Smaug {
    /// The watched wallets with their deterministic names, one entry per name.
    pub wallets: Vec<(String, DescriptorWallet)>,
    /// The network of the wallets.
    pub network: String,
    /// The full node's RPC host.
    pub brpc_host: String,
    /// The full node's RPC port.
    pub brpc_port: u16,
    pub brpc_auth: RpcAuth,
    /// Where the wallets' stores live.
    pub db_dir: String,
}

/// Why a wallet could not be removed.
#[derive(Debug)]
pub enum RegistryError {
    /// No wallet has this name.
    NotFound(String),
}

impl Smaug {
    /// Each name appears once.
    pub open spec fn wf(&self) -> bool {
        names_unique(self.wallets@)
    }

    /// The watched wallets by name.
    pub open spec fn model(&self) -> Map<Seq<char>, DescriptorWallet> {
        entries_map(self.wallets@)
    }

    /// An empty state for mainnet on the local default RPC address.
    pub fn new() -> (r: Self)
        ensures
            r.wf(),
            r.model() == Map::<Seq<char>, DescriptorWallet>::empty(),
            r.network@ == "bitcoin"@,
            r.brpc_host@ == "127.0.0.1"@,
            r.brpc_port == 8332,
            r.brpc_auth is NoAuth,
            r.db_dir@ == ""@,
    {
        Smaug {
            wallets: Vec::new(),
            network: "bitcoin".to_owned(),
            brpc_host: "127.0.0.1".to_owned(),
            brpc_port: 8332,
            brpc_auth: RpcAuth::NoAuth,
            db_dir: "".to_owned(),
        }
    }

    fn position(&self, name: &String) -> (r: Option<usize>)
        ensures
            match r {
                None => forall|j: int| 0 <= j < self.wallets@.len() ==> (#[trigger] self.wallets@[j]).0@ != name@,
                Some(i) => i < self.wallets@.len() && self.wallets@[i as int].0@ == name@,
            },
    {
        let mut i: usize = 0;
        while i < self.wallets.len()
            invariant
                i <= self.wallets@.len(),
                forall|j: int| 0 <= j < i ==> (#[trigger] self.wallets@[j]).0@ != name@,
            decreases self.wallets.len() - i,
        {
            if self.wallets[i].0 == *name {
                return Some(i);
            }
            i = i + 1;
        }
        None
    }

    /// The wallet named `name`.
    pub fn get(&self, name: &String) -> (r: Option<&DescriptorWallet>)
        requires
            self.wf(),
        ensures
            r is Some <==> self.model().dom().contains(name@),
            r is Some ==> *r->0 == self.model()[name@],
    {
        proof {
            lemma_entries_dom(self.wallets@, name@);
        }
        match self.position(name) {
            None => None,
            Some(i) => {
                proof {
                    lemma_entries_update(self.wallets@, i as int, self.wallets@[i as int]);
                    assert(self.wallets@.update(i as int, self.wallets@[i as int]) =~= self.wallets@);
                }
                Some(&self.wallets[i].1)
            },
        }
    }

    /// Puts `wallet` under `name`, replacing a wallet of the same name.
    pub fn insert_wallet(&mut self, name: String, wallet: DescriptorWallet)
        requires
            old(self).wf(),
        ensures
            final(self).wf(),
            final(self).model() == old(self).model().insert(name@, wallet),
            final(self).network == old(self).network,
            final(self).brpc_host == old(self).brpc_host,
            final(self).brpc_port == old(self).brpc_port,
            final(self).brpc_auth == old(self).brpc_auth,
            final(self).db_dir == old(self).db_dir,
    {
        match self.position(&name) {
            Some(i) => {
                let ghost e = (name, wallet);
                proof {
                    lemma_entries_update(self.wallets@, i as int, e);
                }
                self.wallets.set(i, (name, wallet));
                assert(self.wallets@ == old(self).wallets@.update(i as int, e));
                assert forall|a: int, b: int| 0 <= a < b < self.wallets@.len() implies (#[trigger] self.wallets@[a]).0@
                    != (#[trigger] self.wallets@[b]).0@ by {
                    assert(old(self).wallets@[a].0@ != old(self).wallets@[b].0@);
                }
            },
            None => {
                let ghost e = (name, wallet);
                self.wallets.push((name, wallet));
                assert(self.wallets@.drop_last() =~= old(self).wallets@);
                assert forall|a: int, b: int| 0 <= a < b < self.wallets@.len() implies (#[trigger] self.wallets@[a]).0@
                    != (#[trigger] self.wallets@[b]).0@ by {
                    if b < old(self).wallets@.len() {
                        assert(old(self).wallets@[a].0@ != old(self).wallets@[b].0@);
                    } else {
                        assert(old(self).wallets@[a] == self.wallets@[a]);
                    }
                }
            },
        }
    }

    /// Adds a wallet under its deterministic name, replacing one of the same
    /// name; re-adding the same wallet changes nothing.
    pub fn add_descriptor_wallet(&mut self, wallet: DescriptorWallet) -> (r: Result<(), NameError>)
        requires
            old(self).wf(),
        ensures
            final(self).wf(),
            network_of(wallet.network) is None ==> r is Err && r->Err_0 is Network,
            network_of(wallet.network) is Some ==> {
                let name = wallet_name_of(
                    wallet.descriptor@,
                    opt_text(wallet.change_descriptor),
                    network_of(wallet.network)->0,
                );
                &&& name is None ==> r is Err && r->Err_0 is Descriptor
                &&& name is Some ==> r is Ok && final(self).model() == old(self).model().insert(
                    name->0,
                    wallet,
                )
            },
            r is Err ==> final(self).model() == old(self).model(),
            final(self).network == old(self).network,
            final(self).brpc_host == old(self).brpc_host,
            final(self).brpc_port == old(self).brpc_port,
            final(self).brpc_auth == old(self).brpc_auth,
            final(self).db_dir == old(self).db_dir,
    {
        match wallet.get_name() {
            Ok(name) => {
                self.insert_wallet(name, wallet);
                Ok(())
            },
            Err(e) => Err(e),
        }
    }

    /// Removes the wallet named `name` and returns it; an unknown name is an error.
    pub fn remove_wallet(&mut self, name: &String) -> (r: Result<DescriptorWallet, RegistryError>)
        requires
            old(self).wf(),
        ensures
            final(self).wf(),
            old(self).model().dom().contains(name@) ==> r is Ok && r->Ok_0 == old(self).model()[name@]
                && final(self).model() == old(self).model().remove(name@),
            !old(self).model().dom().contains(name@) ==> r is Err && r->Err_0->NotFound_0@ == name@
                && final(self).model() == old(self).model(),
            final(self).network == old(self).network,
            final(self).brpc_host == old(self).brpc_host,
            final(self).brpc_port == old(self).brpc_port,
            final(self).brpc_auth == old(self).brpc_auth,
            final(self).db_dir == old(self).db_dir,
    {
        proof {
            lemma_entries_dom(self.wallets@, name@);
        }
        match self.position(name) {
            None => Err(RegistryError::NotFound(name.clone())),
            Some(i) => {
                proof {
                    lemma_entries_remove(self.wallets@, i as int);
                    lemma_entries_update(self.wallets@, i as int, self.wallets@[i as int]);
                    assert(self.wallets@.update(i as int, self.wallets@[i as int]) =~= self.wallets@);
                }
                let (_, w) = self.wallets.remove(i);
                assert forall|a: int, b: int| 0 <= a < b < self.wallets@.len() implies (#[trigger] self.wallets@[a]).0@
                    != (#[trigger] self.wallets@[b]).0@ by {
                    let a0 = if a < i { a } else { a + 1 };
                    let b0 = if b < i { b } else { b + 1 };
                    assert(self.wallets@[a] == old(self).wallets@[a0]);
                    assert(self.wallets@[b] == old(self).wallets@[b0]);
                    assert(old(self).wallets@[a0].0@ != old(self).wallets@[b0].0@);
                }
                Ok(w)
            },
        }
    }

    /// The watched wallets with their names.
    pub fn list(&self) -> (r: &Vec<(String, DescriptorWallet)>)
        ensures
            r@ == self.wallets@,
    {
        &self.wallets
    }
}

/// A plain list of watched wallets.
#[derive(Debug)]
pub struct WatchDescriptor {
    pub wallets: Vec<DescriptorWallet>,
}

impl WatchDescriptor {
    /// An empty list.
    pub fn new() -> (r: Self)
        ensures
            r.wallets@.len() == 0,
    {
        WatchDescriptor { wallets: Vec::new() }
    }

    /// Appends a wallet.
    pub fn add_descriptor_wallet(&mut self, wallet: DescriptorWallet)
        ensures
            final(self).wallets@ == old(self).wallets@.push(wallet),
    {
        self.wallets.push(wallet);
    }
}

} // verus!
