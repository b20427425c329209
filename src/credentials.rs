//! Deciding how to authenticate to the full node's RPC interface.
//!
//! Sources are tried in a fixed order and the first that yields credentials
//! wins: explicit user and password, an explicit cookie directory, the host's
//! own `bitcoin-rpc*` settings, the network's standard cookie file, and the
//! node's configuration file in the home directory. [`resolve_credentials`]
//! makes every decision of that chain; it names the next lookup it needs, and
//! the caller performs that lookup and asks again.
use vstd::prelude::*;
use crate::conf::{lookup, parse_bitcoin_conf, parsed_conf};
use crate::network::{port_for, resolve_port};
use crate::text::{join2, same_text};

verus! {

/// How to authenticate to the full node.
#[derive(Debug)]
pub enum RpcAuth {
    NoAuth,
    UserPass(String, String),
    CookieFile(String),
}

/// Where and how to reach the full node's RPC interface.
#[derive(Debug)]
pub struct BrpcConfig {
    pub host: String,
    pub port: u16,
    pub auth: RpcAuth,
}

/// The outcome of credential resolution that is not an error.
#[derive(Debug)]
pub enum DetectionResult {
    /// Credentials were found.
    Configured(BrpcConfig),
    /// None were found; the message tells how to configure them.
    Unconfigured(String),
}

/// Explicit settings that are malformed.
#[derive(Debug)]
pub enum CredentialError {
    /// A user was given without a password.
    MissingPassword,
    /// The explicit cookie directory holds no cookie file at this path.
    MissingCookieFile(String),
}

/// The `bitcoin-rpc*` settings the host reports.
#[derive(Debug)]
pub struct HostRpcSettings {
    pub user: Option<String>,
    pub password: Option<String>,
    pub connect: Option<String>,
    pub port: Option<i64>,
}

/// The settings resolution starts from.
#[derive(Debug)]
pub struct CredentialOptions {
    /// The default RPC host.
    pub host: String,
    /// An explicit RPC port.
    pub port: Option<i64>,
    pub user: Option<String>,
    pub pass: Option<String>,
    /// An explicit directory holding the node's cookie file.
    pub cookie_dir: Option<String>,
    /// The network name (`bitcoin`, `testnet`, `regtest`, `signet`, `mutinynet`).
    pub network: String,
    /// The home directory, where it is known.
    pub home: Option<String>,
}

/// What the lookups performed so far found; `None` for one not performed yet.
#[derive(Debug)]
pub struct CredentialProbes {
    /// Whether the cookie file in the explicit cookie directory exists.
    pub cookie_dir_file: Option<bool>,
    /// The host's settings, `Some(None)` where the host could not be asked.
    pub host_settings: Option<Option<HostRpcSettings>>,
    /// Whether the network's standard cookie file exists.
    pub standard_cookie_file: Option<bool>,
    /// The configuration file's text, `Some(None)` where it cannot be read.
    pub conf_file: Option<Option<String>>,
}

/// A lookup that resolution needs before it can go on.
#[derive(Debug)]
pub enum Probe {
    /// Whether the file at this path (in the explicit cookie directory) exists.
    CookieDirFile(String),
    /// The host's `bitcoin-rpc*` settings.
    HostSettings,
    /// Whether the standard cookie file at this path exists.
    StandardCookie(String),
    /// The text of the configuration file at this path.
    ConfFile(String),
}

/// What resolution says next: a lookup to perform, or its final answer.
#[derive(Debug)]
pub enum ResolveStep {
    Probe(Probe),
    Done(Result<DetectionResult, CredentialError>),
}

pub ghost enum AuthModel {
    NoAuth,
    UserPass(Seq<char>, Seq<char>),
    CookieFile(Seq<char>),
}

pub ghost struct ConfigModel {
    pub host: Seq<char>,
    pub port: u16,
    pub auth: AuthModel,
}

/// A [`ResolveStep`] with its text seen as character sequences.
pub ghost enum StepModel {
    CookieDirFile(Seq<char>),
    HostSettings,
    StandardCookie(Seq<char>),
    ConfFile(Seq<char>),
    Configured(ConfigModel),
    Unconfigured(Seq<char>),
    MissingPassword,
    MissingCookieFile(Seq<char>),
}

impl RpcAuth {
    pub open spec fn model(&self) -> AuthModel {
        match self {
            RpcAuth::NoAuth => AuthModel::NoAuth,
            RpcAuth::UserPass(u, p) => AuthModel::UserPass(u@, p@),
            RpcAuth::CookieFile(f) => AuthModel::CookieFile(f@),
        }
    }
}

impl BrpcConfig {
    pub open spec fn model(&self) -> ConfigModel {
        ConfigModel { host: self.host@, port: self.port, auth: self.auth.model() }
    }
}

impl ResolveStep {
    pub open spec fn model(&self) -> StepModel {
        match self {
            ResolveStep::Probe(Probe::CookieDirFile(p)) => StepModel::CookieDirFile(p@),
            ResolveStep::Probe(Probe::HostSettings) => StepModel::HostSettings,
            ResolveStep::Probe(Probe::StandardCookie(p)) => StepModel::StandardCookie(p@),
            ResolveStep::Probe(Probe::ConfFile(p)) => StepModel::ConfFile(p@),
            ResolveStep::Done(Ok(DetectionResult::Configured(c))) => StepModel::Configured(c.model()),
            ResolveStep::Done(Ok(DetectionResult::Unconfigured(m))) => StepModel::Unconfigured(m@),
            ResolveStep::Done(Err(CredentialError::MissingPassword)) => StepModel::MissingPassword,
            ResolveStep::Done(Err(CredentialError::MissingCookieFile(p))) => StepModel::MissingCookieFile(p@),
        }
    }
}

/// `b` appended to the path `a` as one more component.
pub open spec fn join_path(a: Seq<char>, b: Seq<char>) -> Seq<char> {
    if a.len() == 0 {
        b
    } else if a.last() == '/' {
        a + b
    } else {
        a + "/"@ + b
    }
}

/// Appends the component `b` to the path `a`.
pub fn join_path_str(a: &str, b: &str) -> (r: String)
    ensures
        r@ == join_path(a@, b@),
{
    proof {
        reveal_strlit("/");
    }
    let n = a.unicode_len();
    if n == 0 {
        b.to_owned()
    } else if a.get_char(n - 1) == '/' {
        join2(a, b)
    } else {
        let mut s = join2(a, "/");
        s.append(b);
        s
    }
}

/// The directory under the node's data directory that holds a network's
/// cookie file: `""` for mainnet, `None` for an unknown network.
pub open spec fn cookie_subdir(network: Seq<char>) -> Option<Seq<char>> {
    if network == "bitcoin"@ {
        Some(""@)
    } else if network == "testnet"@ {
        Some("testnet3"@)
    } else if network == "regtest"@ {
        Some("regtest"@)
    } else if network == "signet"@ || network == "mutinynet"@ {
        Some("signet"@)
    } else {
        None
    }
}

/// The standard cookie file of a network under the home directory.
pub open spec fn standard_cookie_path(home: Option<String>, network: Seq<char>) -> Option<Seq<char>> {
    match (home, cookie_subdir(network)) {
        (Some(h), Some(sub)) => {
            let data = join_path(h@, ".bitcoin"@);
            if sub.len() == 0 {
                Some(join_path(data, ".cookie"@))
            } else {
                Some(join_path(join_path(data, sub), ".cookie"@))
            }
        },
        _ => None,
    }
}

/// The node's configuration file under the home directory.
pub open spec fn conf_path(home: Option<String>) -> Option<Seq<char>> {
    match home {
        Some(h) => Some(join_path(join_path(h@, ".bitcoin"@), "bitcoin.conf"@)),
        None => None,
    }
}

/// The help text returned when no credentials are found.
pub open spec fn unconfigured_text() -> Seq<char> {
    "No bitcoind RPC credentials found. Smaug will start but cannot function until configured.\n\nTo configure bitcoind access, use one of these methods:\n\n1. Set explicit credentials in CLN config:\n   smaug_brpc_user=<rpcuser>\n   smaug_brpc_pass=<rpcpassword>\n   smaug_brpc_port=<port>  # optional, defaults based on network\n\n2. Point to cookie file directory:\n   smaug_brpc_cookie_dir=/path/to/bitcoin/datadir\n\n3. Ensure CLN has bitcoin-rpcuser/bitcoin-rpcpassword set\n\n4. Use standard cookie file location (~/.bitcoin/[network]/.cookie)\n\n5. Add rpcuser/rpcpassword to ~/.bitcoin/bitcoin.conf"@
}

/// The help text telling how to configure credentials.
pub fn unconfigured_message() -> (r: String)
    ensures
        r@ == unconfigured_text(),
{
    "No bitcoind RPC credentials found. Smaug will start but cannot function until configured.\n\nTo configure bitcoind access, use one of these methods:\n\n1. Set explicit credentials in CLN config:\n   smaug_brpc_user=<rpcuser>\n   smaug_brpc_pass=<rpcpassword>\n   smaug_brpc_port=<port>  # optional, defaults based on network\n\n2. Point to cookie file directory:\n   smaug_brpc_cookie_dir=/path/to/bitcoin/datadir\n\n3. Ensure CLN has bitcoin-rpcuser/bitcoin-rpcpassword set\n\n4. Use standard cookie file location (~/.bitcoin/[network]/.cookie)\n\n5. Add rpcuser/rpcpassword to ~/.bitcoin/bitcoin.conf".to_owned()
}

/// Whether every character of `s` is an ASCII digit.
pub open spec fn all_digits(s: Seq<char>) -> bool {
    forall|i: int| 0 <= i < s.len() ==> 48 <= (#[trigger] s[i]) as u32 <= 57
}

/// The number the decimal digits `s` spell.
pub open spec fn digits_value(s: Seq<char>) -> nat
    decreases s.len(),
{
    if s.len() == 0 {
        0
    } else {
        digits_value(s.drop_last()) * 10 + ((s.last() as u32) - 48) as nat
    }
}

/// A port number as `u16::from_str` reads it: an optional `+`, then at least
/// one decimal digit, with a value that fits in 16 bits.
/// The digits of a port number: the text without a leading `+`.
pub open spec fn port_digits(s: Seq<char>) -> Seq<char> {
    if s.len() > 0 && s[0] == '+' {
        s.drop_first()
    } else {
        s
    }
}

pub open spec fn parse_port_text(s: Seq<char>) -> Option<u16> {
    let d = port_digits(s);
    if d.len() > 0 && all_digits(d) && digits_value(d) <= 65535 {
        Some(digits_value(d) as u16)
    } else {
        None
    }
}

proof fn lemma_digits_prefix_grows(d: Seq<char>, k: int, m: int)
    requires
        0 <= k <= m <= d.len(),
        all_digits(d),
    ensures
        digits_value(d.subrange(0, k)) <= digits_value(d.subrange(0, m)),
    decreases m - k,
{
    if k < m {
        lemma_digits_prefix_grows(d, k, m - 1);
        assert(d.subrange(0, m).drop_last() =~= d.subrange(0, m - 1));
        assert(d.subrange(0, m).last() == d[m - 1]);
    }
}

/// Reads a port number written in decimal.
pub fn parse_port(s: &str) -> (r: Option<u16>)
    ensures
        r == parse_port_text(s@),
{
    let n = s.unicode_len();
    let off: usize = if n > 0 && s.get_char(0) == '+' {
        1
    } else {
        0
    };
    let ghost d = port_digits(s@);
    assert(d =~= s@.subrange(off as int, n as int));
    if off == n {
        return None;
    }
    let mut v: u32 = 0;
    let mut i: usize = off;
    assert(d.subrange(0, 0) =~= Seq::<char>::empty());
    while i < n
        invariant
            n == s@.len(),
            off <= i <= n,
            d == port_digits(s@),
            d =~= s@.subrange(off as int, n as int),
            all_digits(d.subrange(0, i - off)),
            v == digits_value(d.subrange(0, i - off)),
            v <= 65535,
        decreases n - i,
    {
        let c = s.get_char(i);
        let u = c as u32;
        let ghost j = i - off;
        assert(d[j] == c);
        assert(d.subrange(0, j + 1).drop_last() =~= d.subrange(0, j));
        if u < 48 || u > 57 {
            assert(!all_digits(d));
            return None;
        }
        assert(all_digits(d.subrange(0, j + 1))) by {
            assert forall|k: int| 0 <= k < j + 1 implies 48 <= (#[trigger] d.subrange(0, j + 1)[k]) as u32 <= 57 by {
                if k < j {
                    assert(d.subrange(0, j + 1)[k] == d.subrange(0, j)[k]);
                }
            }
        }
        v = v * 10 + (u - 48);
        if v > 65535 {
            proof {
                if all_digits(d) {
                    lemma_digits_prefix_grows(d, j + 1, d.len() as int);
                    assert(d.subrange(0, d.len() as int) =~= d);
                }
            }
            return None;
        }
        i = i + 1;
    }
    assert(d.subrange(0, n - off) =~= d);
    Some(v as u16)
}

/// The credentials the host's settings give, where they hold both a user and
/// a password.
pub open spec fn host_config(o: CredentialOptions, hs: HostRpcSettings) -> Option<ConfigModel> {
    match (hs.user, hs.password) {
        (Some(u), Some(p)) => Some(
            ConfigModel {
                host: match hs.connect {
                    Some(c) => c@,
                    None => o.host@,
                },
                port: port_for(
                    if hs.port is Some {
                        hs.port
                    } else {
                        o.port
                    },
                    o.network@,
                ),
                auth: AuthModel::UserPass(u@, p@),
            },
        ),
        _ => None,
    }
}

/// The credentials a configuration file gives, where it holds both
/// `rpcuser` and `rpcpassword` for the network.
pub open spec fn conf_config(o: CredentialOptions, content: Seq<char>) -> Option<ConfigModel> {
    let m = parsed_conf(content, o.network@);
    match (lookup(m, "rpcuser"@), lookup(m, "rpcpassword"@)) {
        (Some(u), Some(p)) => Some(
            ConfigModel {
                host: match lookup(m, "rpcconnect"@) {
                    Some(h) => h,
                    None => o.host@,
                },
                port: match lookup(m, "rpcport"@) {
                    Some(t) => match parse_port_text(t) {
                        Some(port) => port,
                        None => port_for(o.port, o.network@),
                    },
                    None => port_for(o.port, o.network@),
                },
                auth: AuthModel::UserPass(u, p),
            },
        ),
        _ => None,
    }
}

/// The node's address from the options, with the given authentication.
pub open spec fn direct_config(o: CredentialOptions, auth: AuthModel) -> ConfigModel {
    ConfigModel { host: o.host@, port: port_for(o.port, o.network@), auth }
}

/// The configuration file and the final fallback.
pub open spec fn resolve_from_conf(o: CredentialOptions, p: CredentialProbes) -> StepModel {
    match conf_path(o.home) {
        None => StepModel::Unconfigured(unconfigured_text()),
        Some(path) => match p.conf_file {
            None => StepModel::ConfFile(path),
            Some(None) => StepModel::Unconfigured(unconfigured_text()),
            Some(Some(content)) => match conf_config(o, content@) {
                Some(c) => StepModel::Configured(c),
                None => StepModel::Unconfigured(unconfigured_text()),
            },
        },
    }
}

/// The standard cookie file, then what follows it.
pub open spec fn resolve_from_cookie(o: CredentialOptions, p: CredentialProbes) -> StepModel {
    match standard_cookie_path(o.home, o.network@) {
        None => resolve_from_conf(o, p),
        Some(path) => match p.standard_cookie_file {
            None => StepModel::StandardCookie(path),
            Some(true) => StepModel::Configured(direct_config(o, AuthModel::CookieFile(path))),
            Some(false) => resolve_from_conf(o, p),
        },
    }
}

/// The whole chain of sources, in priority order; the first that yields
/// credentials wins.
pub open spec fn resolution(o: CredentialOptions, p: CredentialProbes) -> StepModel {
    if o.user is Some {
        match o.pass {
            Some(pass) => StepModel::Configured(
                direct_config(o, AuthModel::UserPass(o.user->0@, pass@)),
            ),
            None => StepModel::MissingPassword,
        }
    } else if o.cookie_dir is Some {
        let path = join_path(o.cookie_dir->0@, ".cookie"@);
        match p.cookie_dir_file {
            None => StepModel::CookieDirFile(path),
            Some(true) => StepModel::Configured(direct_config(o, AuthModel::CookieFile(path))),
            Some(false) => StepModel::MissingCookieFile(path),
        }
    } else {
        match p.host_settings {
            None => StepModel::HostSettings,
            Some(Some(hs)) if host_config(o, hs) is Some => StepModel::Configured(
                host_config(o, hs)->0,
            ),
            _ => resolve_from_cookie(o, p),
        }
    }
}

fn clone_opt(o: &Option<String>) -> (r: Option<String>)
    ensures
        r == *o,
{
    match o {
        Some(s) => Some(s.clone()),
        None => None,
    }
}

fn direct(o: &CredentialOptions, auth: RpcAuth) -> (r: BrpcConfig)
    ensures
        r.model() == direct_config(*o, auth.model()),
{
    BrpcConfig { host: o.host.clone(), port: resolve_port(o.port, o.network.as_str()), auth }
}

/// The credentials the host's settings give, if they hold a user and a password.
pub fn config_from_host_settings(o: &CredentialOptions, hs: &HostRpcSettings) -> (r: Option<BrpcConfig>)
    ensures
        match host_config(*o, *hs) {
            None => r is None,
            Some(c) => r is Some && r->0.model() == c,
        },
{
    match (&hs.user, &hs.password) {
        (Some(u), Some(p)) => {
            let host = match &hs.connect {
                Some(c) => c.clone(),
                None => o.host.clone(),
            };
            let port_opt = if hs.port.is_some() {
                hs.port
            } else {
                o.port
            };
            let port = resolve_port(port_opt, o.network.as_str());
            Some(BrpcConfig { host, port, auth: RpcAuth::UserPass(u.clone(), p.clone()) })
        },
        _ => None,
    }
}

/// The credentials a configuration file's text gives for the options' network,
/// if it holds `rpcuser` and `rpcpassword`.
pub fn config_from_conf_file(o: &CredentialOptions, content: &str) -> (r: Option<BrpcConfig>)
    ensures
        match conf_config(*o, content@) {
            None => r is None,
            Some(c) => r is Some && r->0.model() == c,
        },
{
    let parsed = parse_bitcoin_conf(content, o.network.as_str());
    match (parsed.get("rpcuser"), parsed.get("rpcpassword")) {
        (Some(u), Some(p)) => {
            let host = match parsed.get("rpcconnect") {
                Some(h) => h.clone(),
                None => o.host.clone(),
            };
            let port = match parsed.get("rpcport") {
                Some(t) => match parse_port(t.as_str()) {
                    Some(port) => port,
                    None => resolve_port(o.port, o.network.as_str()),
                },
                None => resolve_port(o.port, o.network.as_str()),
            };
            Some(BrpcConfig { host, port, auth: RpcAuth::UserPass(u.clone(), p.clone()) })
        },
        _ => None,
    }
}

fn standard_cookie(home: &Option<String>, network: &str) -> (r: Option<String>)
    ensures
        match standard_cookie_path(*home, network@) {
            None => r is None,
            Some(p) => r is Some && r->0@ == p,
        },
{
    proof {
        reveal_strlit("");
    }
    let sub: Option<&str> = if same_text(network, "bitcoin") {
        Some("")
    } else if same_text(network, "testnet") {
        Some("testnet3")
    } else if same_text(network, "regtest") {
        Some("regtest")
    } else if same_text(network, "signet") || same_text(network, "mutinynet") {
        Some("signet")
    } else {
        None
    };
    match (home, sub) {
        (Some(h), Some(sub)) => {
            let data = join_path_str(h.as_str(), ".bitcoin");
            if sub.unicode_len() == 0 {
                Some(join_path_str(data.as_str(), ".cookie"))
            } else {
                let dir = join_path_str(data.as_str(), sub);
                Some(join_path_str(dir.as_str(), ".cookie"))
            }
        },
        _ => None,
    }
}

fn conf_file_path(home: &Option<String>) -> (r: Option<String>)
    ensures
        match conf_path(*home) {
            None => r is None,
            Some(p) => r is Some && r->0@ == p,
        },
{
    match home {
        Some(h) => {
            let data = join_path_str(h.as_str(), ".bitcoin");
            Some(join_path_str(data.as_str(), "bitcoin.conf"))
        },
        None => None,
    }
}

fn resolve_conf_step(o: &CredentialOptions, p: &CredentialProbes) -> (r: ResolveStep)
    ensures
        r.model() == resolve_from_conf(*o, *p),
{
    match conf_file_path(&o.home) {
        None => ResolveStep::Done(Ok(DetectionResult::Unconfigured(unconfigured_message()))),
        Some(path) => match &p.conf_file {
            None => ResolveStep::Probe(Probe::ConfFile(path)),
            Some(None) => ResolveStep::Done(Ok(DetectionResult::Unconfigured(unconfigured_message()))),
            Some(Some(content)) => match config_from_conf_file(o, content.as_str()) {
                Some(c) => ResolveStep::Done(Ok(DetectionResult::Configured(c))),
                None => ResolveStep::Done(Ok(DetectionResult::Unconfigured(unconfigured_message()))),
            },
        },
    }
}

fn resolve_cookie_step(o: &CredentialOptions, p: &CredentialProbes) -> (r: ResolveStep)
    ensures
        r.model() == resolve_from_cookie(*o, *p),
{
    match standard_cookie(&o.home, o.network.as_str()) {
        None => resolve_conf_step(o, p),
        Some(path) => match p.standard_cookie_file {
            None => ResolveStep::Probe(Probe::StandardCookie(path)),
            Some(true) => ResolveStep::Done(
                Ok(DetectionResult::Configured(direct(o, RpcAuth::CookieFile(path)))),
            ),
            Some(false) => resolve_conf_step(o, p),
        },
    }
}

/// Decides the next move of credential resolution from the options and the
/// lookups performed so far: either the lookup to perform next, or the
/// answer. Explicit settings come first and a malformed one is an error; the
/// host's settings, the standard cookie file and the configuration file follow;
/// where none yields credentials, the answer is the help text.
pub fn resolve_credentials(o: &CredentialOptions, p: &CredentialProbes) -> (r: ResolveStep)
    ensures
        r.model() == resolution(*o, *p),
{
    match &o.user {
        Some(user) => match &o.pass {
            Some(pass) => ResolveStep::Done(
                Ok(
                    DetectionResult::Configured(
                        direct(o, RpcAuth::UserPass(user.clone(), pass.clone())),
                    ),
                ),
            ),
            None => ResolveStep::Done(Err(CredentialError::MissingPassword)),
        },
        None => match &o.cookie_dir {
            Some(dir) => {
                let path = join_path_str(dir.as_str(), ".cookie");
                match p.cookie_dir_file {
                    None => ResolveStep::Probe(Probe::CookieDirFile(path)),
                    Some(true) => ResolveStep::Done(
                        Ok(DetectionResult::Configured(direct(o, RpcAuth::CookieFile(path)))),
                    ),
                    Some(false) => ResolveStep::Done(Err(CredentialError::MissingCookieFile(path))),
                }
            },
            None => match &p.host_settings {
                None => ResolveStep::Probe(Probe::HostSettings),
                Some(Some(hs)) => match config_from_host_settings(o, hs) {
                    Some(c) => ResolveStep::Done(Ok(DetectionResult::Configured(c))),
                    None => resolve_cookie_step(o, p),
                },
                Some(None) => resolve_cookie_step(o, p),
            },
        },
    }
}

/// Explicit user and password win over every other source, an explicit
/// cookie directory included, whatever the lookups found.
pub proof fn lemma_explicit_user_pass_first(o: CredentialOptions, p: CredentialProbes)
    requires
        o.user is Some,
        o.pass is Some,
    ensures
        resolution(o, p) == StepModel::Configured(
            direct_config(o, AuthModel::UserPass(o.user->0@, o.pass->0@)),
        ),
{
}

/// Without an explicit user, an explicit cookie directory whose cookie file
/// exists wins over the host's settings, the network's standard cookie file and
/// the configuration file.
pub proof fn lemma_cookie_dir_before_standard(o: CredentialOptions, p: CredentialProbes)
    requires
        o.user is None,
        o.cookie_dir is Some,
        p.cookie_dir_file == Some(true),
    ensures
        resolution(o, p) == StepModel::Configured(
            direct_config(o, AuthModel::CookieFile(join_path(o.cookie_dir->0@, ".cookie"@))),
        ),
{
}

/// With nothing explicit, no credentials from the host and no standard cookie
/// file, a configuration file holding a user and a password for the network is
/// what resolution picks.
pub proof fn lemma_conf_file_after_cookie(o: CredentialOptions, p: CredentialProbes, content: String)
    requires
        o.user is None,
        o.cookie_dir is None,
        p.host_settings is Some,
        p.host_settings->0 is Some ==> host_config(o, p.host_settings->0->0) is None,
        standard_cookie_path(o.home, o.network@) is Some ==> p.standard_cookie_file == Some(false),
        o.home is Some,
        p.conf_file == Some(Some(content)),
        conf_config(o, content@) is Some,
    ensures
        resolution(o, p) == StepModel::Configured(conf_config(o, content@)->0),
{
}

} // verus!
