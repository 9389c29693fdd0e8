//! Configuration: the sections of `config.toml`, their defaults, and how a secret is
//! resolved from a direct value or from an environment variable.
use vstd::prelude::*;
use vstd::string::*;

use crate::text::text_eq;

verus! {

/// The environment variables of the process, as (name, value) pairs in the order the
/// operating system lists them; variables whose name or value is not Unicode are absent.
pub struct Environment {
    vars: Vec<(String, String)>,
}

/// The value of the first entry named `name`, if there is one.
pub open spec fn env_lookup(entries: Seq<(Seq<char>, Seq<char>)>, name: Seq<char>) -> Option<
    Seq<char>,
>
    decreases entries.len(),
{
    if entries.len() == 0 {
        None
    } else if entries[0].0 == name {
        Some(entries[0].1)
    } else {
        env_lookup(entries.drop_first(), name)
    }
}

impl View for Environment {
    type V = Seq<(Seq<char>, Seq<char>)>;

    closed spec fn view(&self) -> Seq<(Seq<char>, Seq<char>)> {
        self.vars.deep_view()
    }
}

impl Environment {
    /// An environment made of the given (name, value) pairs.
    pub fn new(vars: Vec<(String, String)>) -> (r: Environment)
        ensures
            r@ == vars.deep_view(),
    {
        Environment { vars }
    }

    /// An environment with no variable set.
    pub fn empty() -> (r: Environment)
        ensures
            r@ == Seq::<(Seq<char>, Seq<char>)>::empty(),
    {
        let r = Environment { vars: Vec::new() };
        assert(r@ =~= Seq::<(Seq<char>, Seq<char>)>::empty());
        r
    }

    /// The value of the variable `name`, or `None` when it is not set.
    pub fn get(&self, name: &str) -> (r: Option<String>)
        ensures
            r.deep_view() == env_lookup(self@, name@),
    {
        let n = self.vars.len();
        let ghost entries = self@;
        assert(entries.skip(0) =~= entries);
        for i in 0..n
            invariant
                n == self.vars@.len(),
                entries == self@,
                entries == self.vars.deep_view(),
                env_lookup(entries, name@) == env_lookup(entries.skip(i as int), name@),
        {
            let entry = &self.vars[i];
            assert(entries.skip(i as int)[0] == entries[i as int]);
            assert(entries[i as int] == (entry.0@, entry.1@));
            if text_eq(entry.0.as_str(), name) {
                return Some(entry.1.clone());
            }
            assert(entries.skip(i as int).drop_first() =~= entries.skip(i + 1));
        }
        None
    }
}

/// Whether an optional text is present and not empty.
pub open spec fn is_nonempty(o: Option<Seq<char>>) -> bool {
    o matches Some(s) && s.len() > 0
}

/// Why a secret could not be resolved.
#[derive(Debug, Clone)]
pub enum ConfigError {
    /// The section names an environment variable, and the variable is not set.
    EnvVarNotSet { label: String, var: String },
    /// The section gives neither a direct value nor an environment variable.
    KeyNotConfigured { label: String },
}

/// Where a secret comes from, given a direct value, a variable name and the environment.
pub enum KeyOutcome {
    Found(Seq<char>),
    EnvVarNotSet(Seq<char>),
    NotConfigured,
}

/// A non-empty direct value wins; otherwise a non-empty variable name is looked up;
/// otherwise nothing is configured.
pub open spec fn key_outcome(
    direct: Option<Seq<char>>,
    env_name: Option<Seq<char>>,
    env: Seq<(Seq<char>, Seq<char>)>,
) -> KeyOutcome {
    if is_nonempty(direct) {
        KeyOutcome::Found(direct->0)
    } else if is_nonempty(env_name) {
        match env_lookup(env, env_name->0) {
            Some(v) => KeyOutcome::Found(v),
            None => KeyOutcome::EnvVarNotSet(env_name->0),
        }
    } else {
        KeyOutcome::NotConfigured
    }
}

/// Whether `r` is what resolving a key under `label` gives for `outcome`.
pub open spec fn key_result_is(
    r: Result<String, ConfigError>,
    outcome: KeyOutcome,
    label: Seq<char>,
) -> bool {
    match outcome {
        KeyOutcome::Found(k) => r matches Ok(s) && s@ == k,
        KeyOutcome::EnvVarNotSet(v) => r matches Err(ConfigError::EnvVarNotSet { label: l, var })
            && l@ == label && var@ == v,
        KeyOutcome::NotConfigured => r matches Err(ConfigError::KeyNotConfigured { label: l })
            && l@ == label,
    }
}

impl ConfigError {
    /// The text of the error.
    pub open spec fn message_spec(&self) -> Seq<char> {
        match self {
            ConfigError::EnvVarNotSet { label, var } => label@ + ": env var '"@ + var@
                + "' is not set"@,
            ConfigError::KeyNotConfigured { label } => label@
                + ": neither api_key nor api_key_env is configured"@,
        }
    }

    /// The text of the error, such as `finnhub: env var 'FINNHUB_API_KEY' is not set`.
    pub fn message(&self) -> (m: String)
        ensures
            m@ == self.message_spec(),
    {
        match self {
            ConfigError::EnvVarNotSet { label, var } => {
                let mut m = label.clone();
                m.append(": env var '");
                m.append(var.as_str());
                m.append("' is not set");
                m
            },
            ConfigError::KeyNotConfigured { label } => {
                let mut m = label.clone();
                m.append(": neither api_key nor api_key_env is configured");
                m
            },
        }
    }
}

/// Resolves a secret: the direct value when it is given and not empty, else the value
/// of the named environment variable when a non-empty name is given, else an error.
pub fn resolve_key(
    direct: &Option<String>,
    env_name: &Option<String>,
    label: &str,
    env: &Environment,
) -> (r: Result<String, ConfigError>)
    ensures
        key_result_is(r, key_outcome(direct.deep_view(), env_name.deep_view(), env@), label@),
{
    if let Some(key) = direct {
        if !key.as_str().is_empty() {
            return Ok(key.clone());
        }
    }
    if let Some(env_var) = env_name {
        if !env_var.as_str().is_empty() {
            return match env.get(env_var.as_str()) {
                Some(v) => Ok(v),
                None => Err(
                    ConfigError::EnvVarNotSet { label: label.to_owned(), var: env_var.clone() },
                ),
            };
        }
    }
    Err(ConfigError::KeyNotConfigured { label: label.to_owned() })
}

/// The whole configuration file.
#[derive(Debug, Clone)]
pub struct Config {
    pub server: ServerConfig,
    pub finnhub: FinnhubConfig,
    pub gemini: GeminiConfig,
    pub coinmarketcap: CoinMarketCapConfig,
    pub exchange_rate: ExchangeRateConfig,
    pub pdf: PdfConfig,
}

/// The `server` section.
#[derive(Debug, Clone)]
pub struct ServerConfig {
    pub port: u16,
    pub database_url: String,
}

/// The `finnhub` section.
#[derive(Debug, Clone)]
pub struct FinnhubConfig {
    pub api_key: Option<String>,
    pub api_key_env: Option<String>,
}

/// The `gemini` section.
#[derive(Debug, Clone)]
pub struct GeminiConfig {
    pub api_key: Option<String>,
    pub api_key_env: Option<String>,
    pub model: String,
}

/// The `pdf` section.
#[derive(Debug, Clone)]
pub struct PdfConfig {
    pub password: Option<String>,
    pub password_env: Option<String>,
}

/// The `coinmarketcap` section.
#[derive(Debug, Clone)]
pub struct CoinMarketCapConfig {
    pub api_key: Option<String>,
    pub api_key_env: Option<String>,
}

/// The `exchange_rate` section.
#[derive(Debug, Clone)]
pub struct ExchangeRateConfig {
    pub api_key: Option<String>,
    pub api_key_env: Option<String>,
    pub base: String,
    pub currencies: Vec<String>,
}

/// The default HTTP port of the server, 3000.
pub fn default_port() -> (r: u16)
    ensures
        r == 3000,
{
    3000
}

/// The default database, `sqlite:kabu.db`.
pub fn default_database_url() -> (r: String)
    ensures
        r@ == "sqlite:kabu.db"@,
{
    String::from_str("sqlite:kabu.db")
}

/// The default Gemini model, `gemini-2.5-flash-lite`.
pub fn default_gemini_model() -> (r: String)
    ensures
        r@ == "gemini-2.5-flash-lite"@,
{
    String::from_str("gemini-2.5-flash-lite")
}

/// The default base currency of exchange rates, `USD`.
pub fn default_base_currency() -> (r: String)
    ensures
        r@ == "USD"@,
{
    String::from_str("USD")
}

/// The default target currencies of exchange rates: `TWD` alone.
pub fn default_target_currencies() -> (r: Vec<String>)
    ensures
        r.deep_view() == seq!["TWD"@],
{
    let mut v: Vec<String> = Vec::new();
    v.push(String::from_str("TWD"));
    assert(v.deep_view() =~= seq!["TWD"@]);
    v
}

impl Default for PdfConfig {
    fn default() -> (r: PdfConfig)
        ensures
            r.password is None && r.password_env is None,
    {
        PdfConfig { password: None, password_env: None }
    }
}

impl Default for CoinMarketCapConfig {
    fn default() -> (r: CoinMarketCapConfig)
        ensures
            r.api_key is None && r.api_key_env is None,
    {
        CoinMarketCapConfig { api_key: None, api_key_env: None }
    }
}

impl Default for ExchangeRateConfig {
    fn default() -> (r: ExchangeRateConfig)
        ensures
            r.api_key is None,
            r.api_key_env is None,
            r.base@ == "USD"@,
            r.currencies.deep_view() == seq!["TWD"@],
    {
        ExchangeRateConfig {
            api_key: None,
            api_key_env: None,
            base: default_base_currency(),
            currencies: default_target_currencies(),
        }
    }
}

impl FinnhubConfig {
    /// The Finnhub API key, resolved under the label `finnhub`.
    pub fn resolve_api_key(&self, env: &Environment) -> (r: Result<String, ConfigError>)
        ensures
            key_result_is(
                r,
                key_outcome(self.api_key.deep_view(), self.api_key_env.deep_view(), env@),
                "finnhub"@,
            ),
    {
        resolve_key(&self.api_key, &self.api_key_env, "finnhub", env)
    }
}

impl GeminiConfig {
    /// The Gemini API key, resolved under the label `gemini`.
    pub fn resolve_api_key(&self, env: &Environment) -> (r: Result<String, ConfigError>)
        ensures
            key_result_is(
                r,
                key_outcome(self.api_key.deep_view(), self.api_key_env.deep_view(), env@),
                "gemini"@,
            ),
    {
        resolve_key(&self.api_key, &self.api_key_env, "gemini", env)
    }
}

impl CoinMarketCapConfig {
    /// The CoinMarketCap API key, resolved under the label `coinmarketcap`.
    pub fn resolve_api_key(&self, env: &Environment) -> (r: Result<String, ConfigError>)
        ensures
            key_result_is(
                r,
                key_outcome(self.api_key.deep_view(), self.api_key_env.deep_view(), env@),
                "coinmarketcap"@,
            ),
    {
        resolve_key(&self.api_key, &self.api_key_env, "coinmarketcap", env)
    }
}

impl ExchangeRateConfig {
    /// The ExchangeRate-API key, resolved under the label `exchange_rate`.
    pub fn resolve_api_key(&self, env: &Environment) -> (r: Result<String, ConfigError>)
        ensures
            key_result_is(
                r,
                key_outcome(self.api_key.deep_view(), self.api_key_env.deep_view(), env@),
                "exchange_rate"@,
            ),
    {
        resolve_key(&self.api_key, &self.api_key_env, "exchange_rate", env)
    }
}

/// The PDF password: the direct value when given and not empty, else the value of the
/// named environment variable when a non-empty name is given, else none.
pub open spec fn password_outcome(
    password: Option<Seq<char>>,
    password_env: Option<Seq<char>>,
    env: Seq<(Seq<char>, Seq<char>)>,
) -> Option<Seq<char>> {
    if is_nonempty(password) {
        password
    } else if is_nonempty(password_env) {
        env_lookup(env, password_env->0)
    } else {
        None
    }
}

impl PdfConfig {
    /// The password used to decrypt uploaded PDFs, if one is configured.
    pub fn resolve_password(&self, env: &Environment) -> (r: Option<String>)
        ensures
            r.deep_view() == password_outcome(
                self.password.deep_view(),
                self.password_env.deep_view(),
                env@,
            ),
    {
        if let Some(pw) = &self.password {
            if !pw.as_str().is_empty() {
                return Some(pw.clone());
            }
        }
        if let Some(env_var) = &self.password_env {
            if !env_var.as_str().is_empty() {
                return env.get(env_var.as_str());
            }
        }
        None
    }
}

/// Where the configuration file is read from.
#[derive(Debug, Clone)]
pub enum ConfigLocation {
    /// The path held by the variable `KABU_CONFIG`.
    EnvPath(String),
    /// `kabu/config.toml` under the user's configuration directory.
    UserConfigDir,
    /// `config.toml` in the working directory.
    WorkingDir,
}

impl Config {
    /// The configuration file named by the variable `KABU_CONFIG`, if it is set; when it
    /// is, no other place is looked at.
    pub fn env_config_path(env: &Environment) -> (r: Option<String>)
        ensures
            r.deep_view() == env_lookup(env@, "KABU_CONFIG"@),
    {
        env.get("KABU_CONFIG")
    }

    /// Chooses the configuration file: the variable `KABU_CONFIG` first, then the
    /// user's `kabu/config.toml` when that file exists, then `./config.toml`.
    pub fn locate(env: &Environment, user_config_exists: bool) -> (r: ConfigLocation)
        ensures
            match env_lookup(env@, "KABU_CONFIG"@) {
                Some(p) => r matches ConfigLocation::EnvPath(q) && q@ == p,
                None => if user_config_exists {
                    r is UserConfigDir
                } else {
                    r is WorkingDir
                },
            },
    {
        match Self::env_config_path(env) {
            Some(p) => ConfigLocation::EnvPath(p),
            None => if user_config_exists {
                ConfigLocation::UserConfigDir
            } else {
                ConfigLocation::WorkingDir
            },
        }
    }
}

/// A non-empty direct value is used as it is, whatever environment variable the
/// section names and whatever the environment holds.
pub proof fn lemma_direct_key_wins(
    key: Seq<char>,
    env_name: Option<Seq<char>>,
    env: Seq<(Seq<char>, Seq<char>)>,
)
    requires
        key.len() > 0,
    ensures
        key_outcome(Some(key), env_name, env) == KeyOutcome::Found(key),
{
}

/// A secret is reported missing only when neither a direct value nor a variable name
/// is configured; a named variable that is not set is reported as such.
pub proof fn lemma_missing_key_means_unconfigured(
    direct: Option<Seq<char>>,
    env_name: Option<Seq<char>>,
    env: Seq<(Seq<char>, Seq<char>)>,
)
    ensures
        key_outcome(direct, env_name, env) is NotConfigured <==> (!is_nonempty(direct)
            && !is_nonempty(env_name)),
        key_outcome(direct, env_name, env) is EnvVarNotSet ==> env_lookup(env, env_name->0)
            is None,
{
}

/// An absent password and an empty one are the same: with either, a non-empty
/// variable name gives the environment's value of that variable, so the password can be
/// configured through `password_env` alone.
pub proof fn lemma_password_from_env_alone(
    password: Option<Seq<char>>,
    name: Seq<char>,
    value: Seq<char>,
    env: Seq<(Seq<char>, Seq<char>)>,
)
    requires
        password is None || password == Some(Seq::<char>::empty()),
        name.len() > 0,
    ensures
        password_outcome(password, Some(name), env) == env_lookup(env, name),
        password_outcome(None, Some(name), env) == password_outcome(
            Some(Seq::<char>::empty()),
            Some(name),
            env,
        ),
        env_lookup(seq![(name, value)] + env, name) == Some(value) ==> password_outcome(
            password,
            Some(name),
            seq![(name, value)] + env,
        ) == Some(value),
{
    assert((seq![(name, value)] + env)[0] == (name, value));
}

/// The same holds of every API key: an absent and an empty direct key resolve alike,
/// and the named variable's value is the key.
pub proof fn lemma_key_from_env_alone(
    direct: Option<Seq<char>>,
    name: Seq<char>,
    value: Seq<char>,
    env: Seq<(Seq<char>, Seq<char>)>,
)
    requires
        direct is None || direct == Some(Seq::<char>::empty()),
        name.len() > 0,
    ensures
        key_outcome(None, Some(name), env) == key_outcome(
            Some(Seq::<char>::empty()),
            Some(name),
            env,
        ),
        key_outcome(direct, Some(name), seq![(name, value)] + env) == KeyOutcome::Found(value),
{
    assert((seq![(name, value)] + env)[0] == (name, value));
}

/// The first variable of a name is the one looked up, whatever follows it.
pub proof fn lemma_lookup_finds_first(
    name: Seq<char>,
    value: Seq<char>,
    env: Seq<(Seq<char>, Seq<char>)>,
)
    ensures
        env_lookup(seq![(name, value)] + env, name) == Some(value),
{
    assert((seq![(name, value)] + env)[0] == (name, value));
}

} // verus!
