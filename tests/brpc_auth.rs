use smaug::conf::parse_bitcoin_conf;
use smaug::network::resolve_port;

#[test]
fn test_resolve_port_explicit() {
    assert_eq!(resolve_port(Some(12345), "bitcoin"), 12345);
    assert_eq!(resolve_port(Some(12345), "regtest"), 12345);
}

#[test]
fn test_resolve_port_defaults() {
    assert_eq!(resolve_port(None, "bitcoin"), 8332);
    assert_eq!(resolve_port(None, "testnet"), 18332);
    assert_eq!(resolve_port(None, "regtest"), 18443);
    assert_eq!(resolve_port(None, "signet"), 38332);
    assert_eq!(resolve_port(None, "mutinynet"), 38332);
}

#[test]
fn test_parse_bitcoin_conf_global_only() {
    let content = r#"
rpcuser=alice
rpcpassword=secret123
rpcport=8332
"#;
    let parsed = parse_bitcoin_conf(content, "bitcoin");
    assert_eq!(parsed.get("rpcuser"), Some(&"alice".to_string()));
    assert_eq!(parsed.get("rpcpassword"), Some(&"secret123".to_string()));
    assert_eq!(parsed.get("rpcport"), Some(&"8332".to_string()));
}

#[test]
fn test_parse_bitcoin_conf_with_section() {
    let content = r#"
rpcuser=global_user
rpcpassword=global_pass

[main]
rpcuser=mainnet_user
rpcpassword=mainnet_pass

[test]
rpcuser=testnet_user
rpcpassword=testnet_pass
rpcport=18332

[regtest]
rpcuser=regtest_user
"#;
    // mainnet
    let parsed = parse_bitcoin_conf(content, "bitcoin");
    assert_eq!(parsed.get("rpcuser"), Some(&"mainnet_user".to_string()));
    assert_eq!(parsed.get("rpcpassword"), Some(&"mainnet_pass".to_string()));

    // testnet
    let parsed = parse_bitcoin_conf(content, "testnet");
    assert_eq!(parsed.get("rpcuser"), Some(&"testnet_user".to_string()));
    assert_eq!(parsed.get("rpcpassword"), Some(&"testnet_pass".to_string()));
    assert_eq!(parsed.get("rpcport"), Some(&"18332".to_string()));

    // regtest: the section overrides rpcuser only, rpcpassword comes from the global part
    let parsed = parse_bitcoin_conf(content, "regtest");
    assert_eq!(parsed.get("rpcuser"), Some(&"regtest_user".to_string()));
    assert_eq!(parsed.get("rpcpassword"), Some(&"global_pass".to_string()));
}

#[test]
fn test_parse_bitcoin_conf_comments_and_whitespace() {
    let content = r#"
# This is a comment
  rpcuser = spaced_user
rpcpassword=pass  # inline comment not supported, this is the password

# Another comment
[main]
  rpcport = 8332
"#;
    let parsed = parse_bitcoin_conf(content, "bitcoin");
    assert_eq!(parsed.get("rpcuser"), Some(&"spaced_user".to_string()));
    // inline comments are not part of the format; the value is only trimmed
    assert_eq!(
        parsed.get("rpcpassword"),
        Some(&"pass  # inline comment not supported, this is the password".to_string())
    );
    assert_eq!(parsed.get("rpcport"), Some(&"8332".to_string()));
}

#[test]
fn conf_section_overrides_per_key() {
    let content = "rpcuser=g_u\nrpcpassword=g_p\n[test]\nrpcuser=t_u\n";
    let parsed = parse_bitcoin_conf(content, "testnet");
    assert_eq!(parsed.get("rpcuser"), Some(&"t_u".to_string()));
    assert_eq!(parsed.get("rpcpassword"), Some(&"g_p".to_string()));
}

#[test]
fn conf_other_sections_and_bad_lines_ignored() {
    let content = "[signet]\nrpcuser=s\n[main]\nnot a pair\nrpcuser=m\r\n";
    let parsed = parse_bitcoin_conf(content, "bitcoin");
    assert_eq!(parsed.get("rpcuser"), Some(&"m".to_string()));
    assert_eq!(parsed.get("not a pair"), None);
    let parsed = parse_bitcoin_conf(content, "mutinynet");
    assert_eq!(parsed.get("rpcuser"), Some(&"s".to_string()));
}

#[test]
fn conf_empty_text_has_no_keys() {
    let parsed = parse_bitcoin_conf("", "regtest");
    assert_eq!(parsed.get("rpcuser"), None);
    let parsed = parse_bitcoin_conf("rpcuser=last", "regtest");
    assert_eq!(parsed.get("rpcuser"), Some(&"last".to_string()));
}

#[test]
fn conf_value_may_hold_equals_sign() {
    let parsed = parse_bitcoin_conf("rpcpassword = a=b \n", "bitcoin");
    assert_eq!(parsed.get("rpcpassword"), Some(&"a=b".to_string()));
}

#[test]
fn port_truncates_to_sixteen_bits() {
    assert_eq!(resolve_port(Some(65536 + 80), "bitcoin"), 80);
    assert_eq!(resolve_port(None, "unknown"), 8332);
}
