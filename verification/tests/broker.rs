use std::hash::{BuildHasher, Hasher};

use crucible::broker::{
    advance, child_env, mint_token, operator_token, probe_addr, BrokerBootTimeout, LaunchAction,
    LaunchEvent, LaunchPhase, BOOT_TIMEOUT_SECS, TOKEN_BYTES,
};
use crucible::manifest::broker::BrokerUrlError;
use crucible::manifest::hard_tools::{services_text, HardToolCfg};
use crucible::manifest::{
    broker_endpoint_from_url, broker_port, resolve_broker_url, BrokerCfg,
};

#[test]
fn probe_addr_maps_bind_to_loopback_port() {
    assert_eq!(probe_addr("0.0.0.0:8849"), "127.0.0.1:8849");
    assert_eq!(probe_addr("0.0.0.0:1234"), "127.0.0.1:1234");
    // No port: passed through unchanged.
    assert_eq!(probe_addr("localhost"), "localhost");
}

#[test]
fn broker_url_defaults_to_none() {
    let cfg = BrokerCfg::default();
    assert!(cfg.url.is_none());
}

#[test]
fn broker_url_resolves_from_podman_driver() {
    let cfg = BrokerCfg::default();
    let url = resolve_broker_url(&cfg, "host.containers.internal");
    assert_eq!(url, "http://host.containers.internal:8849/mcp");
}

#[test]
fn broker_url_resolves_from_kubernetes_driver() {
    let cfg = BrokerCfg::default();
    let url = resolve_broker_url(&cfg, "host.openshell.internal");
    assert_eq!(url, "http://host.openshell.internal:8849/mcp");
}

#[test]
fn broker_url_explicit_override_honored() {
    let cfg = BrokerCfg {
        url: Some("http://custom:9999/mcp".to_string()),
        ..BrokerCfg::default()
    };
    let url = resolve_broker_url(&cfg, "host.containers.internal");
    assert_eq!(url, "http://custom:9999/mcp", "explicit url wins");
}

#[test]
fn broker_port_extracts_from_bind() {
    assert_eq!(broker_port("0.0.0.0:8849"), "8849");
    assert_eq!(broker_port("0.0.0.0:1234"), "1234");
    assert_eq!(broker_port("localhost"), "localhost");
}

#[test]
fn broker_endpoint_from_url_no_override_is_unchanged() {
    let cfg = BrokerCfg::default();
    let url = resolve_broker_url(&cfg, "host.containers.internal");
    assert_eq!(
        broker_endpoint_from_url(&url).unwrap(),
        "host.containers.internal:8849:full"
    );
    let url = resolve_broker_url(&cfg, "host.openshell.internal");
    assert_eq!(
        broker_endpoint_from_url(&url).unwrap(),
        "host.openshell.internal:8849:full"
    );
}

#[test]
fn broker_endpoint_from_url_explicit_override_with_port() {
    assert_eq!(
        broker_endpoint_from_url("http://broker.example:9000/mcp").unwrap(),
        "broker.example:9000:full"
    );
}

#[test]
fn broker_endpoint_from_url_https_no_port() {
    assert_eq!(
        broker_endpoint_from_url("https://broker.example/mcp").unwrap(),
        "broker.example:443:full"
    );
}

#[test]
fn broker_endpoint_from_url_http_no_port() {
    assert_eq!(
        broker_endpoint_from_url("http://broker.example/mcp").unwrap(),
        "broker.example:80:full"
    );
}

#[test]
fn broker_endpoint_from_url_malformed() {
    assert!(
        broker_endpoint_from_url("not-a-url").is_err(),
        "a URL without a scheme must fail, not panic"
    );
    assert!(
        broker_endpoint_from_url("http://").is_err(),
        "an empty authority must fail"
    );
}

#[test]
fn broker_endpoint_from_url_rejects_a_typoed_port() {
    for bad in [
        "http://broker.example:abc/mcp",
        "http://broker.example:/mcp",
        "http://broker.example:99999/mcp",
    ] {
        assert!(
            broker_endpoint_from_url(bad).is_err(),
            "{bad} must be rejected, not silently defaulted"
        );
    }
}

#[test]
fn broker_endpoint_from_url_handles_bracketed_ipv6() {
    assert_eq!(
        broker_endpoint_from_url("http://[::1]:8849/mcp").unwrap(),
        "[::1]:8849:full"
    );
    assert_eq!(
        broker_endpoint_from_url("https://[::1]/mcp").unwrap(),
        "[::1]:443:full"
    );
}

#[test]
fn endpoint_errors_name_the_url() {
    let bad_scheme = broker_endpoint_from_url("ftp://x/mcp").unwrap_err();
    assert!(matches!(&bad_scheme, BrokerUrlError::BadScheme { url } if url == "ftp://x/mcp"));
    assert_eq!(
        bad_scheme.message(),
        "broker URL must start with http:// or https://, got \"ftp://x/mcp\""
    );
    let empty = broker_endpoint_from_url("https:///mcp").unwrap_err();
    assert!(matches!(&empty, BrokerUrlError::EmptyAuthority(e) if e.url == "https:///mcp"));
    assert_eq!(
        empty.message(),
        "broker URL has an empty authority: \"https:///mcp\""
    );
    let port = broker_endpoint_from_url("http://a:b\"c/mcp").unwrap_err();
    assert!(matches!(&port, BrokerUrlError::InvalidPort { .. }));
    // A quote in the URL is escaped, as in any debug form.
    assert_eq!(port.message(), "invalid port in broker URL \"http://a:b\\\"c/mcp\"");
}

#[test]
fn endpoint_ports_are_read_as_numbers() {
    assert_eq!(broker_endpoint_from_url("http://h:080").unwrap(), "h:80:full");
    assert_eq!(broker_endpoint_from_url("http://h:+80").unwrap(), "h:80:full");
    assert_eq!(broker_endpoint_from_url("http://h:65535/").unwrap(), "h:65535:full");
    assert!(broker_endpoint_from_url("http://h:65536/").is_err());
    assert!(broker_endpoint_from_url("http://h:-1/").is_err());
    assert!(broker_endpoint_from_url("http://h:+/").is_err());
    // A colon of an unbracketed authority is never part of the host.
    for bad in ["http://a:b:80/", "http://::1:8849/mcp", "http://h:80:", "http://:80:90/"] {
        assert!(
            matches!(broker_endpoint_from_url(bad), Err(BrokerUrlError::InvalidPort { url }) if url == bad),
            "{bad}"
        );
    }
    assert_eq!(broker_endpoint_from_url("http://:80/").unwrap(), ":80:full");
    assert_eq!(broker_endpoint_from_url("http://[::1]x/").unwrap(), "[::1]x:80:full");
    assert!(broker_endpoint_from_url("http://[::1]:x/").is_err());
}

#[test]
fn driver_endpoint_is_the_host_with_the_bind_port() {
    for (bind, host, expected) in [
        ("0.0.0.0:8849", "h", "h:8849:full"),
        ("[::]:9", "[::1]", "[::1]:9:full"),
        ("0.0.0.0:007", "", ":7:full"),
    ] {
        let cfg = BrokerCfg { bind: bind.to_string(), ..BrokerCfg::default() };
        let url = resolve_broker_url(&cfg, host);
        assert_eq!(broker_endpoint_from_url(&url).unwrap(), expected);
    }
}

#[test]
fn broker_cfg_defaults() {
    let cfg = BrokerCfg::default();
    assert!(!cfg.enabled && !cfg.build);
    assert_eq!(cfg.bind, "0.0.0.0:8849");
    assert_eq!(cfg.name, "broker");
    assert_eq!(cfg.bin, "");
    assert!(cfg.hard_tool.is_empty());
}

#[test]
fn minted_tokens_are_hex_and_differ() {
    let a = mint_token(&[0u8; TOKEN_BYTES]);
    let mut bytes = [0u8; TOKEN_BYTES];
    bytes[23] = 0xaf;
    let b = mint_token(&bytes);
    assert_eq!(a.len(), 48);
    assert!(b.chars().all(|c| c.is_ascii_hexdigit()));
    assert_ne!(a, b);
    assert_eq!(b, format!("{}af", "0".repeat(46)));
}

fn entropy() -> [u8; TOKEN_BYTES] {
    let mut bytes = [0u8; TOKEN_BYTES];
    for chunk in bytes.chunks_mut(8) {
        let hasher = std::collections::hash_map::RandomState::new().build_hasher();
        chunk.copy_from_slice(&hasher.finish().to_le_bytes());
    }
    bytes
}

#[test]
fn mint_token_is_hex_and_unique() {
    let a = mint_token(&entropy());
    let b = mint_token(&entropy());
    assert_eq!(a.len(), 48);
    assert!(a.chars().all(|c| c.is_ascii_hexdigit()));
    assert_ne!(a, b);
}

#[test]
fn operator_token_ignores_an_empty_value() {
    assert_eq!(operator_token(Some("t".to_string())).as_deref(), Some("t"));
    assert_eq!(operator_token(Some(String::new())), None);
    assert_eq!(operator_token(None), None);
}

#[test]
fn child_env_carries_the_configuration_in_order() {
    let mut cfg = BrokerCfg { bin: "b".to_string(), ..BrokerCfg::default() };
    let agent = vec![("K".to_string(), "V".to_string())];
    let bare = child_env(&cfg, "tok", "box", None, &agent);
    let expect: Vec<(String, String)> = [
        ("BROKER_NAME", "broker"),
        ("BROKER_BIND", "0.0.0.0:8849"),
        ("BROKER_TOKEN", "tok"),
        ("BROKER_SANDBOX_NAME", "box"),
        ("K", "V"),
    ]
    .iter()
    .map(|(k, v)| (k.to_string(), v.to_string()))
    .collect();
    assert_eq!(bare, expect);

    cfg.build = true;
    cfg.hard_tool.push(HardToolCfg {
        name: "eval".to_string(),
        url: "http://e/mcp".to_string(),
        bearer_token_env: None,
    });
    let full = child_env(&cfg, "tok", "box", Some(9000), &agent);
    let names: Vec<&str> = full.iter().map(|(k, _)| k.as_str()).collect();
    assert_eq!(
        names,
        [
            "BROKER_NAME",
            "BROKER_BIND",
            "BROKER_TOKEN",
            "BROKER_SANDBOX_NAME",
            "BROKER_HARD_TOOLS",
            "BROKER_CONTROL_ADDR",
            "BROKER_BUILD",
            "K"
        ]
    );
    assert_eq!(
        full[4].1,
        r#"[{"name":"eval","url":"http://e/mcp","bearer_token_env":null}]"#
    );
    assert_eq!(full[5].1, "127.0.0.1:9000");
    assert_eq!(full[6].1, "1");
}

#[test]
fn services_are_handed_over_in_json() {
    assert_eq!(services_text(&Vec::new()), "[]");
    let service = |name: &str, env: Option<&str>| HardToolCfg {
        name: name.to_string(),
        url: format!("http://{name}/mcp"),
        bearer_token_env: env.map(|e| e.to_string()),
    };
    let text = services_text(&vec![service("a", Some("TO\"K")), service("b", None)]);
    assert_eq!(
        text,
        r#"[{"name":"a","url":"http://a/mcp","bearer_token_env":"TO\"K"},{"name":"b","url":"http://b/mcp","bearer_token_env":null}]"#
    );
    let read: serde_json::Value = serde_json::from_str(&text).unwrap();
    assert_eq!(read[0]["bearer_token_env"], "TO\"K");
    assert!(read[1]["bearer_token_env"].is_null());
}

#[test]
fn agent_cannot_replace_the_token() {
    let cfg = BrokerCfg { bin: "b".to_string(), ..BrokerCfg::default() };
    let entry = |k: &str, v: &str| (k.to_string(), v.to_string());
    let agent = vec![entry("A", "1"), entry("BROKER_TOKEN", "x"), entry("BROKER_TOKENS", "2")];
    let env = child_env(&cfg, "tok", "box", None, &agent);
    let last = env.iter().rev().find(|(k, _)| k == "BROKER_TOKEN").map(|(_, v)| v.as_str());
    assert_eq!(last, Some("tok"), "the reported token is the one the broker sees");
    assert_eq!(env[4..], [entry("A", "1"), entry("BROKER_TOKENS", "2")]);
}

#[test]
fn broker_that_listens_is_left_alone() {
    let cfg = BrokerCfg::default();
    let (phase, action) = advance(LaunchPhase::Probing, LaunchEvent::PortOpen, None, &cfg);
    assert!(matches!(phase, LaunchPhase::Over));
    assert!(matches!(action, LaunchAction::Ready { token: None }));
    let token = Some("op".to_string());
    let (_, action) = advance(LaunchPhase::Probing, LaunchEvent::PortOpen, token, &cfg);
    assert!(matches!(action, LaunchAction::Ready { token: Some(t) } if t == "op"));
}

#[test]
fn broker_is_started_with_a_fresh_token_and_awaited() {
    let cfg = BrokerCfg { bin: "dom-broker".to_string(), ..BrokerCfg::default() };
    let (phase, action) = advance(LaunchPhase::Probing, LaunchEvent::PortClosed, None, &cfg);
    assert!(matches!(action, LaunchAction::ReadEntropy));
    let mut bytes = [0u8; TOKEN_BYTES];
    bytes[0] = 1;
    bytes[1] = 255;
    let fresh = format!("01ff{}", "0".repeat(44));
    let (phase, action) = advance(phase, LaunchEvent::Entropy { bytes }, None, &cfg);
    assert!(matches!(action, LaunchAction::Spawn { token } if token == fresh));
    let (phase, action) = advance(phase, LaunchEvent::Spawned, None, &cfg);
    assert!(matches!(action, LaunchAction::ReadClock));
    let (phase, action) = advance(phase, LaunchEvent::Elapsed { millis: 4999 }, None, &cfg);
    assert!(matches!(action, LaunchAction::Probe));
    let (phase, action) = advance(phase, LaunchEvent::PortClosed, None, &cfg);
    assert!(matches!(action, LaunchAction::Sleep { millis: 100 }));
    let (phase, action) = advance(phase, LaunchEvent::Slept, None, &cfg);
    assert!(matches!(action, LaunchAction::ReadClock));
    let (phase, action) = advance(phase, LaunchEvent::PortOpen, None, &cfg);
    assert!(matches!(action, LaunchAction::Ready { token: Some(t) } if t == fresh));
    assert!(matches!(phase, LaunchPhase::Over));
}

#[test]
fn broker_that_never_listens_is_given_up() {
    let cfg = BrokerCfg { bin: "dom-broker".to_string(), ..BrokerCfg::default() };
    let waiting = LaunchPhase::Waiting { token: "t".to_string() };
    let (_, action) = advance(waiting, LaunchEvent::Elapsed { millis: 5000 }, None, &cfg);
    match action {
        LaunchAction::GiveUp { error } => assert_eq!(
            error.message(),
            "provisioning broker (`dom-broker`) did not start listening on 127.0.0.1:8849 within 5s"
        ),
        _ => panic!("the deadline has passed"),
    }
    let operator = Some("op".to_string());
    let (_, action) = advance(LaunchPhase::Probing, LaunchEvent::PortClosed, operator, &cfg);
    assert!(matches!(action, LaunchAction::Spawn { token } if token == "op"));
    let (phase, action) = advance(LaunchPhase::Probing, LaunchEvent::Slept, None, &cfg);
    assert!(matches!(phase, LaunchPhase::Probing) && matches!(action, LaunchAction::Nothing));
    let timeout = BrokerBootTimeout {
        bin: "b".to_string(),
        probe: "p".to_string(),
        seconds: BOOT_TIMEOUT_SECS,
    };
    assert_eq!(
        timeout.message(),
        "provisioning broker (`b`) did not start listening on p within 5s"
    );
}
