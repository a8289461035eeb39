use pool_scanner::config::{Config, ConfigError};

const RAYDIUM: &str = "675kPX9MHTjS2zt1qfr1NYHuzeLXfQM9H24wFSUt1Mp8";

fn some(s: &str) -> Option<String> {
    Some(s.to_string())
}

fn error_of(r: Result<Config, ConfigError>) -> ConfigError {
    match r {
        Ok(_) => panic!("configuration was accepted"),
        Err(e) => e,
    }
}

#[test]
fn missing_rpc_url_is_refused() {
    assert_eq!(error_of(Config::from_values(None, some(RAYDIUM))), ConfigError::MissingRpcUrl);
    assert_eq!(error_of(Config::from_values(None, None)), ConfigError::MissingRpcUrl);
}

#[test]
fn missing_program_is_refused() {
    assert_eq!(
        error_of(Config::from_values(some("http://localhost:8899"), None)),
        ConfigError::MissingProgram
    );
}

#[test]
fn malformed_program_is_refused() {
    let url = "http://localhost:8899";
    for bad in ["", "1111", &"1".repeat(45), "0OIl0OIl0OIl0OIl0OIl0OIl0OIl0OIl", "675kPX9MHTjS2zt1qfr1NYHuzeLXfQM9H24wFSUt1Mp!"] {
        assert_eq!(
            error_of(Config::from_values(some(url), some(bad))),
            ConfigError::MalformedProgram,
            "{bad}"
        );
    }
}

#[test]
fn valid_configuration_is_kept() {
    let c = Config::from_values(some("http://localhost:8899"), some(&"1".repeat(32))).unwrap();
    assert_eq!(c.rpc_url, "http://localhost:8899");
    assert_eq!(c.program, [0u8; 32]);
    let c = Config::from_values(some("https://api.mainnet-beta.solana.com"), some(RAYDIUM)).unwrap();
    assert_ne!(c.program, [0u8; 32]);
    let r = c.scan_request();
    assert_eq!(r.program, c.program);
    assert_eq!(r.filters.len(), 2);
}
