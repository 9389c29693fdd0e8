use kabu::config::{
    default_base_currency, default_database_url, default_gemini_model, default_port,
    default_target_currencies, resolve_key, CoinMarketCapConfig, Config, ConfigError,
    ConfigLocation, Environment, ExchangeRateConfig, FinnhubConfig, GeminiConfig, PdfConfig,
};

fn env(pairs: &[(&str, &str)]) -> Environment {
    Environment::new(pairs.iter().map(|(k, v)| (k.to_string(), v.to_string())).collect())
}

fn some(s: &str) -> Option<String> {
    Some(s.to_string())
}

#[test]
fn direct_key_wins_over_env() {
    let e = env(&[("FINNHUB_KEY", "from-env")]);
    let c = FinnhubConfig { api_key: some("direct"), api_key_env: some("FINNHUB_KEY") };
    assert_eq!(c.resolve_api_key(&e).unwrap(), "direct");
}

#[test]
fn empty_direct_key_falls_back_to_env() {
    let e = env(&[("OTHER", "x"), ("GEMINI_KEY", "from-env"), ("GEMINI_KEY", "second")]);
    let c = GeminiConfig { api_key: some(""), api_key_env: some("GEMINI_KEY"), model: "m".to_string() };
    assert_eq!(c.resolve_api_key(&e).unwrap(), "from-env");
}

#[test]
fn unset_env_var_is_reported() {
    let c = CoinMarketCapConfig { api_key: None, api_key_env: some("CMC_KEY") };
    match c.resolve_api_key(&Environment::empty()) {
        Err(err @ ConfigError::EnvVarNotSet { .. }) => {
            assert_eq!(err.message(), "coinmarketcap: env var 'CMC_KEY' is not set")
        }
        other => panic!("unexpected {:?}", other),
    }
}

#[test]
fn missing_key_is_reported() {
    let c = ExchangeRateConfig { api_key: some(""), api_key_env: some(""), ..ExchangeRateConfig::default() };
    let err = c.resolve_api_key(&env(&[("", "x")])).unwrap_err();
    assert_eq!(
        err.message(),
        "exchange_rate: neither api_key nor api_key_env is configured"
    );
    let err = resolve_key(&None, &None, "finnhub", &Environment::empty()).unwrap_err();
    assert_eq!(err.message(), "finnhub: neither api_key nor api_key_env is configured");
}

#[test]
fn pdf_password_resolution() {
    let e = env(&[("PDF_PW", "pw-env")]);
    assert_eq!(PdfConfig { password: some("pw"), password_env: some("PDF_PW") }.resolve_password(&e), some("pw"));
    assert_eq!(PdfConfig { password: some(""), password_env: some("PDF_PW") }.resolve_password(&e), some("pw-env"));
    assert_eq!(PdfConfig { password: None, password_env: some("MISSING") }.resolve_password(&e), None);
    assert_eq!(PdfConfig::default().resolve_password(&e), None);
}

#[test]
fn defaults_follow_the_docs() {
    assert_eq!(default_port(), 3000);
    assert_eq!(default_database_url(), "sqlite:kabu.db");
    assert_eq!(default_gemini_model(), "gemini-2.5-flash-lite");
    assert_eq!(default_base_currency(), "USD");
    assert_eq!(default_target_currencies(), vec!["TWD".to_string()]);
    let x = ExchangeRateConfig::default();
    assert_eq!(x.base, "USD");
    assert_eq!(x.currencies, vec!["TWD".to_string()]);
    assert!(x.api_key.is_none() && x.api_key_env.is_none());
    let c = CoinMarketCapConfig::default();
    assert!(c.api_key.is_none() && c.api_key_env.is_none());
}

#[test]
fn config_location_priority() {
    match Config::locate(&env(&[("KABU_CONFIG", "/etc/kabu.toml")]), true) {
        ConfigLocation::EnvPath(p) => assert_eq!(p, "/etc/kabu.toml"),
        other => panic!("unexpected {:?}", other),
    }
    assert!(matches!(Config::locate(&Environment::empty(), true), ConfigLocation::UserConfigDir));
    assert!(matches!(Config::locate(&Environment::empty(), false), ConfigLocation::WorkingDir));
}

#[test]
fn env_config_path_reads_kabu_config() {
    assert_eq!(Config::env_config_path(&env(&[("KABU_CONFIG", "/x.toml")])).as_deref(), Some("/x.toml"));
    assert_eq!(Config::env_config_path(&env(&[("OTHER", "/x.toml")])), None);
}
