use telos::config::{build_submitter, Config, Environment, Mode};
use telos::submitter::SubmitError;

fn env() -> Environment {
    Environment {
        ws_url: None,
        tempo_ws_url: None,
        tempo_contract: None,
        hl_ws_url: None,
        hl_contract: None,
        tempo_fork_url: None,
        hl_gateway: None,
        submit_rpc_url: None,
        signer_key: None,
        broadcast: None,
        db_url: None,
    }
}

fn hex(byte: &str) -> Option<String> {
    Some(format!("0x{}", byte.repeat(20)))
}

fn text(s: &str) -> Option<String> {
    Some(s.to_string())
}

#[test]
fn nothing_configured_watches_headers() {
    let cfg = Config::from_env(env()).unwrap();
    let url = "wss://ethereum-rpc.publicnode.com".to_string();
    assert_eq!(cfg.mode(), Mode::Headers { url });
    assert!(!cfg.broadcast);
    assert!(build_submitter(&cfg).ok().unwrap().is_none());
}

#[test]
fn the_contracts_decide_the_mode() {
    let mut e = env();
    e.ws_url = text("ws://f");
    e.tempo_ws_url = text("ws://t");
    assert_eq!(
        Config::from_env(e.clone()).unwrap().mode(),
        Mode::Headers { url: "ws://f".to_string() }
    );
    e.tempo_contract = hex("0a");
    assert_eq!(
        Config::from_env(e.clone()).unwrap().mode(),
        Mode::Intents { url: "ws://t".to_string(), contract: [0x0a; 20] }
    );
    e.hl_contract = hex("0b");
    assert_eq!(
        Config::from_env(e.clone()).unwrap().mode(),
        Mode::Both {
            tempo_url: "ws://t".to_string(),
            tempo_contract: [0x0a; 20],
            hl_url: "ws://f".to_string(),
            hl_contract: [0x0b; 20],
        }
    );
    e.tempo_contract = None;
    e.hl_ws_url = text("ws://h");
    assert_eq!(
        Config::from_env(e).unwrap().mode(),
        Mode::Fills { url: "ws://h".to_string(), contract: [0x0b; 20] }
    );
}

#[test]
fn the_first_bad_address_is_named() {
    let mut e = env();
    e.hl_gateway = text("zz");
    let message = |e: &Environment| Config::from_env(e.clone()).err().unwrap().message();
    assert_eq!(message(&e), "TELOS_HL_GATEWAY must be a hex address");
    e.hl_contract = text("");
    assert_eq!(message(&e), "TELOS_HL_CONTRACT must be a hex address");
    e.tempo_contract = text("0x12");
    assert_eq!(message(&e), "TELOS_TEMPO_CONTRACT must be a hex address");
}

#[test]
fn settings_carry_over() {
    let mut e = env();
    e.tempo_fork_url = text("http://fork");
    e.hl_gateway = hex("99");
    e.db_url = text("sqlite://./telos.db");
    let cfg = Config::from_env(e).unwrap();
    assert_eq!(cfg.fork_url.as_deref(), Some("http://fork"));
    assert_eq!(cfg.hedge_venue, Some([0x99; 20]));
    assert_eq!(cfg.db_url.as_deref(), Some("sqlite://./telos.db"));
}

#[test]
fn only_one_asks_for_broadcasts() {
    for (value, expected) in
        [(text("1"), true), (text("true"), false), (text("01"), false), (text(""), false), (None, false)]
    {
        let mut e = env();
        e.broadcast = value;
        assert_eq!(Config::from_env(e).unwrap().broadcast, expected);
    }
}

#[test]
fn a_submitter_needs_url_and_key() {
    let key = format!("{}1", "0".repeat(63));
    let mut e = env();
    e.submit_rpc_url = text("http://rpc");
    assert!(build_submitter(&Config::from_env(e.clone()).unwrap()).ok().unwrap().is_none());
    e.signer_key = Some(key.clone());
    let built = build_submitter(&Config::from_env(e.clone()).unwrap()).ok().unwrap().unwrap();
    assert_eq!(built.rpc_url(), "http://rpc");
    assert_eq!(built.signer_key(), key);
    e.submit_rpc_url = None;
    assert!(build_submitter(&Config::from_env(e.clone()).unwrap()).ok().unwrap().is_none());
    e.submit_rpc_url = text("http://rpc");
    e.signer_key = text("nonsense");
    assert_eq!(
        build_submitter(&Config::from_env(e).unwrap()).err(),
        Some(SubmitError::InvalidSignerKey)
    );
}
