use smaug::credentials::{
    config_from_conf_file, config_from_host_settings, join_path_str, parse_port, resolve_credentials,
    unconfigured_message, CredentialError, CredentialOptions, CredentialProbes, DetectionResult,
    HostRpcSettings, Probe, ResolveStep, RpcAuth,
};

fn options() -> CredentialOptions {
    CredentialOptions {
        host: "127.0.0.1".to_string(),
        port: None,
        user: None,
        pass: None,
        cookie_dir: None,
        network: "regtest".to_string(),
        home: Some("/home/op".to_string()),
    }
}

fn no_probes() -> CredentialProbes {
    CredentialProbes { cookie_dir_file: None, host_settings: None, standard_cookie_file: None, conf_file: None }
}

fn configured(step: ResolveStep) -> smaug::credentials::BrpcConfig {
    match step {
        ResolveStep::Done(Ok(DetectionResult::Configured(c))) => c,
        other => panic!("unexpected {:?}", other),
    }
}

#[test]
fn user_pass_beats_cookie_dir() {
    let mut o = options();
    o.user = Some("u".to_string());
    o.pass = Some("p".to_string());
    o.cookie_dir = Some("/data".to_string());
    let c = configured(resolve_credentials(&o, &no_probes()));
    assert!(matches!(c.auth, RpcAuth::UserPass(ref u, ref p) if u == "u" && p == "p"));
    assert_eq!(c.port, 18443);
    assert_eq!(c.host, "127.0.0.1");
}

#[test]
fn user_without_password_is_error() {
    let mut o = options();
    o.user = Some("u".to_string());
    assert!(matches!(resolve_credentials(&o, &no_probes()), ResolveStep::Done(Err(CredentialError::MissingPassword))));
}

#[test]
fn cookie_dir_beats_standard_cookie() {
    let mut o = options();
    o.cookie_dir = Some("/data/".to_string());
    match resolve_credentials(&o, &no_probes()) {
        ResolveStep::Probe(Probe::CookieDirFile(p)) => assert_eq!(p, "/data/.cookie"),
        other => panic!("unexpected {:?}", other),
    }
    let mut probes = no_probes();
    probes.cookie_dir_file = Some(true);
    probes.standard_cookie_file = Some(true);
    let c = configured(resolve_credentials(&o, &probes));
    assert!(matches!(c.auth, RpcAuth::CookieFile(ref p) if p == "/data/.cookie"));
    probes.cookie_dir_file = Some(false);
    match resolve_credentials(&o, &probes) {
        ResolveStep::Done(Err(CredentialError::MissingCookieFile(p))) => assert_eq!(p, "/data/.cookie"),
        other => panic!("unexpected {:?}", other),
    }
}

#[test]
fn conf_file_after_standard_cookie_fails() {
    let mut o = options();
    o.network = "testnet".to_string();
    let mut probes = no_probes();
    assert!(matches!(resolve_credentials(&o, &probes), ResolveStep::Probe(Probe::HostSettings)));
    probes.host_settings = Some(None);
    match resolve_credentials(&o, &probes) {
        ResolveStep::Probe(Probe::StandardCookie(p)) => assert_eq!(p, "/home/op/.bitcoin/testnet3/.cookie"),
        other => panic!("unexpected {:?}", other),
    }
    probes.standard_cookie_file = Some(false);
    match resolve_credentials(&o, &probes) {
        ResolveStep::Probe(Probe::ConfFile(p)) => assert_eq!(p, "/home/op/.bitcoin/bitcoin.conf"),
        other => panic!("unexpected {:?}", other),
    }
    probes.conf_file = Some(Some("rpcuser=g_u\nrpcpassword=g_p\n[test]\nrpcuser=t_u\nrpcport=+18400\n".to_string()));
    let c = configured(resolve_credentials(&o, &probes));
    assert!(matches!(c.auth, RpcAuth::UserPass(ref u, ref p) if u == "t_u" && p == "g_p"));
    assert_eq!(c.port, 18400);
}

#[test]
fn standard_cookie_for_mainnet() {
    let mut o = options();
    o.network = "bitcoin".to_string();
    let mut probes = no_probes();
    probes.host_settings = Some(None);
    match resolve_credentials(&o, &probes) {
        ResolveStep::Probe(Probe::StandardCookie(p)) => assert_eq!(p, "/home/op/.bitcoin/.cookie"),
        other => panic!("unexpected {:?}", other),
    }
    probes.standard_cookie_file = Some(true);
    let c = configured(resolve_credentials(&o, &probes));
    assert_eq!(c.port, 8332);
    assert!(matches!(c.auth, RpcAuth::CookieFile(_)));
}

#[test]
fn host_settings_used_when_complete() {
    let o = options();
    let mut probes = no_probes();
    probes.host_settings = Some(Some(HostRpcSettings {
        user: Some("hu".to_string()),
        password: Some("hp".to_string()),
        connect: Some("10.0.0.2".to_string()),
        port: Some(9999),
    }));
    let c = configured(resolve_credentials(&o, &probes));
    assert_eq!(c.host, "10.0.0.2");
    assert_eq!(c.port, 9999);
    let partial = HostRpcSettings { user: Some("hu".to_string()), password: None, connect: None, port: None };
    assert!(config_from_host_settings(&o, &partial).is_none());
}

#[test]
fn nothing_found_is_unconfigured() {
    let mut o = options();
    o.home = None;
    let mut probes = no_probes();
    probes.host_settings = Some(None);
    match resolve_credentials(&o, &probes) {
        ResolveStep::Done(Ok(DetectionResult::Unconfigured(m))) => {
            assert!(m.starts_with("No bitcoind RPC credentials found."));
            assert_eq!(m, unconfigured_message());
        }
        other => panic!("unexpected {:?}", other),
    }
    let o = options();
    probes.standard_cookie_file = Some(false);
    probes.conf_file = Some(Some("rpcuser=only\n".to_string()));
    assert!(matches!(resolve_credentials(&o, &probes), ResolveStep::Done(Ok(DetectionResult::Unconfigured(_)))));
}

#[test]
fn conf_file_port_falls_back() {
    let mut o = options();
    o.port = Some(7000);
    let c = config_from_conf_file(&o, "rpcuser=a\nrpcpassword=b\nrpcport=99999\nrpcconnect=node\n").unwrap();
    assert_eq!(c.port, 7000);
    assert_eq!(c.host, "node");
}

#[test]
fn port_text() {
    assert_eq!(parse_port("8332"), Some(8332));
    assert_eq!(parse_port("+1"), Some(1));
    assert_eq!(parse_port("0065535"), Some(65535));
    assert_eq!(parse_port("65536"), None);
    assert_eq!(parse_port("+"), None);
    assert_eq!(parse_port(""), None);
    assert_eq!(parse_port("-1"), None);
    assert_eq!(parse_port("12a"), None);
}

#[test]
fn path_joining() {
    assert_eq!(join_path_str("/a", "b"), "/a/b");
    assert_eq!(join_path_str("/a/", "b"), "/a/b");
    assert_eq!(join_path_str("", "b"), "b");
}
