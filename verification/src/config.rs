//! Configuration: defaults, what a file says, and what the environment
//! overrides.
use vstd::prelude::*;
use vstd::string::*;
use vstd::utf8::{encode_utf8, is_ascii_chars, is_ascii_chars_encode_utf8};

use crate::protocol::error::result_view;
use crate::protocol::header::DEFAULT_MAX_PAYLOAD_SIZE;
use crate::text::{decimal, law_decimal_stands_for_its_number, stands_at, text_value};

verus! {

pub struct Config {
    pub websocket: WebSocketConfig,
    pub dds: DdsConfig,
    pub bridge: BridgeConfig,
    pub logging: LoggingConfig,
}

pub struct WebSocketConfig {
    pub addr: String,
    pub port: u16,
    pub max_connections: usize,
    pub idle_timeout_secs: u64,
}

pub struct DdsConfig {
    pub domain_id: u32,
    pub cyclonedds_uri: Option<String>,
}

pub struct BridgeConfig {
    pub max_payload_size: usize,
    pub session_buffer_size: usize,
}

pub struct LoggingConfig {
    pub level: String,
}

/// The mathematical value of a [`Config`].
#[verifier::ext_equal]
pub struct ConfigView {
    pub addr: Seq<char>,
    pub port: u16,
    pub max_connections: usize,
    pub idle_timeout_secs: u64,
    pub domain_id: u32,
    pub cyclonedds_uri: Option<Seq<char>>,
    pub max_payload_size: usize,
    pub session_buffer_size: usize,
    pub level: Seq<char>,
}

/// The text of an optional string.
pub open spec fn optional_text(s: Option<String>) -> Option<Seq<char>> {
    match s {
        Some(s) => Some(s@),
        None => None,
    }
}

impl View for Config {
    type V = ConfigView;

    open spec fn view(&self) -> ConfigView {
        ConfigView {
            addr: self.websocket.addr@,
            port: self.websocket.port,
            max_connections: self.websocket.max_connections,
            idle_timeout_secs: self.websocket.idle_timeout_secs,
            domain_id: self.dds.domain_id,
            cyclonedds_uri: optional_text(self.dds.cyclonedds_uri),
            max_payload_size: self.bridge.max_payload_size,
            session_buffer_size: self.bridge.session_buffer_size,
            level: self.logging.level@,
        }
    }
}

/// The configuration that holds where nothing else is said.
pub open spec fn default_config() -> ConfigView {
    ConfigView {
        addr: "127.0.0.1"@,
        port: 9876,
        max_connections: 64,
        idle_timeout_secs: 30,
        domain_id: 0,
        cyclonedds_uri: None,
        max_payload_size: DEFAULT_MAX_PAYLOAD_SIZE,
        session_buffer_size: 256,
        level: "info"@,
    }
}

impl Default for Config {
    fn default() -> (config: Self)
        ensures
            config@ == default_config(),
    {
        Config {
            websocket: WebSocketConfig::default(),
            dds: DdsConfig::default(),
            bridge: BridgeConfig::default(),
            logging: LoggingConfig::default(),
        }
    }
}

impl Default for WebSocketConfig {
    fn default() -> (config: Self)
        ensures
            config.addr@ == default_config().addr,
            config.port == default_config().port,
            config.max_connections == default_config().max_connections,
            config.idle_timeout_secs == default_config().idle_timeout_secs,
    {
        WebSocketConfig {
            addr: "127.0.0.1".to_owned(),
            port: 9876,
            max_connections: 64,
            idle_timeout_secs: 30,
        }
    }
}

impl Default for DdsConfig {
    fn default() -> (config: Self)
        ensures
            config.domain_id == default_config().domain_id,
            config.cyclonedds_uri is None,
    {
        DdsConfig { domain_id: 0, cyclonedds_uri: None }
    }
}

impl Default for BridgeConfig {
    fn default() -> (config: Self)
        ensures
            config.max_payload_size == default_config().max_payload_size,
            config.session_buffer_size == default_config().session_buffer_size,
    {
        BridgeConfig { max_payload_size: DEFAULT_MAX_PAYLOAD_SIZE, session_buffer_size: 256 }
    }
}

impl Default for LoggingConfig {
    fn default() -> (config: Self)
        ensures
            config.level@ == default_config().level,
    {
        LoggingConfig { level: "info".to_owned() }
    }
}

impl Clone for Config {
    fn clone(&self) -> (copy: Self)
        ensures
            copy@ == self@,
    {
        Config {
            websocket: WebSocketConfig {
                addr: self.websocket.addr.clone(),
                port: self.websocket.port,
                max_connections: self.websocket.max_connections,
                idle_timeout_secs: self.websocket.idle_timeout_secs,
            },
            dds: DdsConfig {
                domain_id: self.dds.domain_id,
                cyclonedds_uri: match &self.dds.cyclonedds_uri {
                    Some(uri) => Some(uri.clone()),
                    None => None,
                },
            },
            bridge: BridgeConfig {
                max_payload_size: self.bridge.max_payload_size,
                session_buffer_size: self.bridge.session_buffer_size,
            },
            logging: LoggingConfig { level: self.logging.level.clone() },
        }
    }
}

#[derive(Debug)]
pub enum ConfigError {
    FileRead(String, String),
    Parse(String),
    InvalidEnvVar(String, String),
}

/// The mathematical value of a [`ConfigError`].
#[verifier::ext_equal]
pub enum ConfigErrorView {
    FileRead(Seq<char>, Seq<char>),
    Parse(Seq<char>),
    InvalidEnvVar(Seq<char>, Seq<char>),
}

impl View for ConfigError {
    type V = ConfigErrorView;

    open spec fn view(&self) -> ConfigErrorView {
        match *self {
            ConfigError::FileRead(path, reason) => ConfigErrorView::FileRead(path@, reason@),
            ConfigError::Parse(reason) => ConfigErrorView::Parse(reason@),
            ConfigError::InvalidEnvVar(name, value) => {
                ConfigErrorView::InvalidEnvVar(name@, value@)
            },
        }
    }
}

impl ConfigErrorView {
    /// The text that says what is wrong.
    pub open spec fn message(self) -> Seq<char> {
        match self {
            ConfigErrorView::FileRead(path, reason) => {
                "failed to read config file '"@ + path + "': "@ + reason
            },
            ConfigErrorView::Parse(reason) => "failed to parse config: "@ + reason,
            ConfigErrorView::InvalidEnvVar(name, value) => {
                "invalid value for environment variable "@ + name + ": '"@ + value + "'"@
            },
        }
    }
}

impl ConfigError {
    /// The text that says what is wrong.
    pub fn message(&self) -> (text: String)
        ensures
            text@ == self@.message(),
    {
        match self {
            ConfigError::FileRead(path, reason) => {
                let mut text = "failed to read config file '".to_owned();
                text.append(path.as_str());
                text.append("': ");
                text.append(reason.as_str());
                text
            },
            ConfigError::Parse(reason) => {
                let mut text = "failed to parse config: ".to_owned();
                text.append(reason.as_str());
                text
            },
            ConfigError::InvalidEnvVar(name, value) => {
                let mut text = "invalid value for environment variable ".to_owned();
                text.append(name.as_str());
                text.append(": '");
                text.append(value.as_str());
                text.append("'");
                text
            },
        }
    }
}

// ---------------------------------------------------------------------------
// Numbers
// ---------------------------------------------------------------------------

/// Whether every byte is a decimal digit.
pub open spec fn all_digits(bytes: Seq<u8>) -> bool {
    forall|i: int| 0 <= i < bytes.len() ==> 0x30 <= #[trigger] bytes[i] <= 0x39
}

/// The number that decimal digits stand for.
pub open spec fn digits_value(bytes: Seq<u8>) -> int
    decreases bytes.len(),
{
    if bytes.len() == 0 {
        0
    } else {
        10 * digits_value(bytes.drop_last()) + (bytes.last() - 0x30)
    }
}

/// The bytes behind an optional plus sign.
pub open spec fn unsigned_part(bytes: Seq<u8>) -> Seq<u8> {
    if bytes.len() > 0 && bytes[0] == 0x2B {
        bytes.skip(1)
    } else {
        bytes
    }
}

/// The number that a text says: an optional plus sign and one or more decimal
/// digits, with a value of at most `max`.
pub open spec fn number_in(text: Seq<char>, max: int) -> Option<int> {
    let digits = unsigned_part(encode_utf8(text));
    if digits.len() > 0 && all_digits(digits) && digits_value(digits) <= max {
        Some(digits_value(digits))
    } else {
        None
    }
}

proof fn lemma_digits_grow(bytes: Seq<u8>, n: int)
    requires
        all_digits(bytes),
        0 <= n <= bytes.len(),
    ensures
        0 <= digits_value(bytes.take(n)) <= digits_value(bytes),
    decreases bytes.len() - n, bytes.len(),
{
    if n == bytes.len() {
        assert(bytes.take(n) =~= bytes);
        lemma_digits_nonnegative(bytes);
    } else {
        let shorter = bytes.drop_last();
        assert(all_digits(shorter)) by {
            assert forall|i: int| 0 <= i < shorter.len() implies 0x30 <= #[trigger] shorter[i]
                <= 0x39 by {
                assert(shorter[i] == bytes[i]);
            }
        }
        lemma_digits_grow(shorter, n);
        assert(shorter.take(n) =~= bytes.take(n));
        assert(0x30 <= bytes[bytes.len() - 1]);
    }
}

proof fn lemma_digits_nonnegative(bytes: Seq<u8>)
    requires
        all_digits(bytes),
    ensures
        0 <= digits_value(bytes),
    decreases bytes.len(),
{
    if bytes.len() > 0 {
        let shorter = bytes.drop_last();
        assert forall|i: int| 0 <= i < shorter.len() implies 0x30 <= #[trigger] shorter[i]
            <= 0x39 by {
            assert(shorter[i] == bytes[i]);
        }
        lemma_digits_nonnegative(shorter);
        assert(0x30 <= bytes[bytes.len() - 1]);
    }
}

/// Reads a number of at most `max` off a text.
pub fn parse_number(text: &str, max: u32) -> (r: Option<u32>)
    ensures
        (match r {
            Some(n) => Some(n as int),
            None => None,
        }) == number_in(text@, max as int),
{
    let bytes: &[u8] = text.as_bytes();
    let start: usize = if bytes.len() > 0 && bytes[0] == 0x2B {
        1
    } else {
        0
    };
    let ghost digits = unsigned_part(bytes@);
    assert(digits =~= bytes@.skip(start as int));
    if start == bytes.len() {
        return None;
    }
    let mut value: u64 = 0;
    let mut i: usize = start;
    assert(digits.take(0) =~= Seq::<u8>::empty());
    while i < bytes.len()
        invariant
            start <= i <= bytes@.len(),
            digits == bytes@.skip(start as int),
            digits == unsigned_part(encode_utf8(text@)),
            start < bytes@.len(),
            all_digits(digits.take(i - start)),
            value == digits_value(digits.take(i - start)),
            value <= max,
        decreases bytes@.len() - i,
    {
        let b: u8 = bytes[i];
        let ghost n = i - start;
        assert(digits[n] == b);
        if b < 0x30 || b > 0x39 {
            assert(!all_digits(digits));
            return None;
        }
        let ghost now = digits.take(n + 1);
        proof {
            assert(now.drop_last() =~= digits.take(n));
            assert(now.last() == b);
            assert forall|j: int| 0 <= j < now.len() implies 0x30 <= #[trigger] now[j]
                <= 0x39 by {
                if j < n {
                    assert(digits.take(n)[j] == now[j]);
                }
            }
        }
        value = value * 10 + (b - 0x30) as u64;
        if value > max as u64 {
            proof {
                if all_digits(digits) {
                    lemma_digits_grow(digits, n + 1);
                }
            }
            return None;
        }
        i = i + 1;
    }
    assert(digits.take(i - start) =~= digits);
    Some(value as u32)
}

// ---------------------------------------------------------------------------
// The environment
// ---------------------------------------------------------------------------

/// The values of the environment variables that override the configuration.
pub struct EnvOverrides {
    /// DDS_BRIDGE_WS_ADDR
    pub ws_addr: Option<String>,
    /// DDS_BRIDGE_WS_PORT
    pub ws_port: Option<String>,
    /// DDS_BRIDGE_DDS_DOMAIN
    pub dds_domain: Option<String>,
    /// CYCLONEDDS_URI
    pub cyclonedds_uri: Option<String>,
}

/// The mathematical value of [`EnvOverrides`].
#[verifier::ext_equal]
pub struct EnvView {
    pub ws_addr: Option<Seq<char>>,
    pub ws_port: Option<Seq<char>>,
    pub dds_domain: Option<Seq<char>>,
    pub cyclonedds_uri: Option<Seq<char>>,
}

impl View for EnvOverrides {
    type V = EnvView;

    open spec fn view(&self) -> EnvView {
        EnvView {
            ws_addr: optional_text(self.ws_addr),
            ws_port: optional_text(self.ws_port),
            dds_domain: optional_text(self.dds_domain),
            cyclonedds_uri: optional_text(self.cyclonedds_uri),
        }
    }
}

/// A configuration with the address that the environment says.
pub open spec fn with_addr(c: ConfigView, env: EnvView) -> ConfigView {
    match env.ws_addr {
        Some(addr) => ConfigView { addr, ..c },
        None => c,
    }
}

/// A configuration with the port that the environment says, where that is one.
pub open spec fn with_port(c: ConfigView, env: EnvView) -> ConfigView {
    match env.ws_port {
        Some(text) => match number_in(text, u16::MAX as int) {
            Some(n) => ConfigView { port: n as u16, ..c },
            None => c,
        },
        None => c,
    }
}

/// A configuration with the domain that the environment says, where that is
/// one.
pub open spec fn with_domain(c: ConfigView, env: EnvView) -> ConfigView {
    match env.dds_domain {
        Some(text) => match number_in(text, u32::MAX as int) {
            Some(n) => ConfigView { domain_id: n as u32, ..c },
            None => c,
        },
        None => c,
    }
}

/// A configuration with the Cyclone DDS configuration that the environment
/// says.
pub open spec fn with_uri(c: ConfigView, env: EnvView) -> ConfigView {
    match env.cyclonedds_uri {
        Some(uri) => ConfigView { cyclonedds_uri: Some(uri), ..c },
        None => c,
    }
}

/// Whether the environment gives a port that is none.
pub open spec fn bad_port(env: EnvView) -> bool {
    env.ws_port is Some && number_in(env.ws_port->0, u16::MAX as int) is None
}

/// Whether the environment gives a domain that is none.
pub open spec fn bad_domain(env: EnvView) -> bool {
    env.dds_domain is Some && number_in(env.dds_domain->0, u32::MAX as int) is None
}

/// What the environment makes of a configuration. A port or a domain that is
/// no number in range is an error, and what comes behind it is not applied.
pub open spec fn spec_apply_env_overrides(c: ConfigView, env: EnvView) -> (
    Result<(), ConfigErrorView>,
    ConfigView,
) {
    let with_port = with_port(with_addr(c, env), env);
    let with_domain = with_domain(with_port, env);
    if bad_port(env) {
        (
            Err(ConfigErrorView::InvalidEnvVar("DDS_BRIDGE_WS_PORT"@, env.ws_port->0)),
            with_addr(c, env),
        )
    } else if bad_domain(env) {
        (
            Err(ConfigErrorView::InvalidEnvVar("DDS_BRIDGE_DDS_DOMAIN"@, env.dds_domain->0)),
            with_port,
        )
    } else {
        (Ok(()), with_uri(with_domain, env))
    }
}

/// What the environment makes of a configuration that is then used.
pub open spec fn overridden(c: ConfigView, env: EnvView) -> Result<ConfigView, ConfigErrorView> {
    match spec_apply_env_overrides(c, env) {
        (Ok(_), after) => Ok(after),
        (Err(e), _) => Err(e),
    }
}

/// What a configuration file says. Every setting may be missing.
pub struct ConfigFile {
    pub addr: Option<String>,
    pub port: Option<u16>,
    pub max_connections: Option<usize>,
    pub idle_timeout_secs: Option<u64>,
    pub domain_id: Option<u32>,
    pub cyclonedds_uri: Option<String>,
    pub max_payload_size: Option<usize>,
    pub session_buffer_size: Option<usize>,
    pub level: Option<String>,
}

/// What is said, or the default where nothing is.
pub open spec fn said_or<T>(said: Option<T>, default: T) -> T {
    match said {
        Some(v) => v,
        None => default,
    }
}

/// The configuration that a file gives: what it does not say has its default.
pub open spec fn filled(file: ConfigFile) -> ConfigView {
    let d = default_config();
    ConfigView {
        addr: said_or(optional_text(file.addr), d.addr),
        port: said_or(file.port, d.port),
        max_connections: said_or(file.max_connections, d.max_connections),
        idle_timeout_secs: said_or(file.idle_timeout_secs, d.idle_timeout_secs),
        domain_id: said_or(file.domain_id, d.domain_id),
        cyclonedds_uri: optional_text(file.cyclonedds_uri),
        max_payload_size: said_or(file.max_payload_size, d.max_payload_size),
        session_buffer_size: said_or(file.session_buffer_size, d.session_buffer_size),
        level: said_or(optional_text(file.level), d.level),
    }
}

impl Config {
    /// The configuration that a file gives: what it does not say has its
    /// default.
    pub fn from_file(file: ConfigFile) -> (config: Self)
        ensures
            config@ == filled(file),
    {
        let d = Config::default();
        Config {
            websocket: WebSocketConfig {
                addr: file.addr.unwrap_or(d.websocket.addr),
                port: file.port.unwrap_or(d.websocket.port),
                max_connections: file.max_connections.unwrap_or(d.websocket.max_connections),
                idle_timeout_secs: file.idle_timeout_secs.unwrap_or(
                    d.websocket.idle_timeout_secs,
                ),
            },
            dds: DdsConfig {
                domain_id: file.domain_id.unwrap_or(d.dds.domain_id),
                cyclonedds_uri: file.cyclonedds_uri,
            },
            bridge: BridgeConfig {
                max_payload_size: file.max_payload_size.unwrap_or(d.bridge.max_payload_size),
                session_buffer_size: file.session_buffer_size.unwrap_or(
                    d.bridge.session_buffer_size,
                ),
            },
            logging: LoggingConfig { level: file.level.unwrap_or(d.logging.level) },
        }
    }

    /// The configuration that a file gives, with what the environment
    /// overrides.
    pub fn load(file: ConfigFile, env: &EnvOverrides) -> (r: Result<Self, ConfigError>)
        ensures
            result_view(r) == overridden(filled(file), env@),
    {
        let mut config = Config::from_file(file);
        match config.apply_env_overrides(env) {
            Ok(_) => Ok(config),
            Err(e) => Err(e),
        }
    }

    /// The default configuration, with what the environment overrides.
    pub fn from_defaults(env: &EnvOverrides) -> (r: Result<Self, ConfigError>)
        ensures
            result_view(r) == overridden(default_config(), env@),
    {
        let mut config = Config::default();
        match config.apply_env_overrides(env) {
            Ok(_) => Ok(config),
            Err(e) => Err(e),
        }
    }

    /// Applies what the environment overrides.
    pub fn apply_env_overrides(&mut self, env: &EnvOverrides) -> (r: Result<(), ConfigError>)
        ensures
            (result_view(r), final(self)@) == spec_apply_env_overrides(old(self)@, env@),
    {
        match &env.ws_addr {
            Some(val) => {
                self.websocket.addr = val.clone();
            },
            None => {},
        }
        match &env.ws_port {
            Some(val) => match parse_number(val.as_str(), u16::MAX as u32) {
                Some(port) => {
                    self.websocket.port = port as u16;
                },
                None => {
                    return Err(
                        ConfigError::InvalidEnvVar("DDS_BRIDGE_WS_PORT".to_owned(), val.clone()),
                    );
                },
            },
            None => {},
        }
        match &env.dds_domain {
            Some(val) => match parse_number(val.as_str(), u32::MAX) {
                Some(domain_id) => {
                    self.dds.domain_id = domain_id;
                },
                None => {
                    return Err(
                        ConfigError::InvalidEnvVar(
                            "DDS_BRIDGE_DDS_DOMAIN".to_owned(),
                            val.clone(),
                        ),
                    );
                },
            },
            None => {},
        }
        match &env.cyclonedds_uri {
            Some(val) => {
                self.dds.cyclonedds_uri = Some(val.clone());
            },
            None => {},
        }
        Ok(())
    }
}

/// The environment goes before the file, and the file before the defaults.
pub proof fn law_environment_before_file_before_defaults(file: ConfigFile, env: EnvView)
    ensures
        overridden(filled(file), env) matches Ok(after) ==> {
            let d = default_config();
            &&& after.addr == said_or(env.ws_addr, said_or(optional_text(file.addr), d.addr))
            &&& env.ws_port matches Some(text) ==> number_in(text, u16::MAX as int) == Some(
                after.port as int,
            )
            &&& env.ws_port is None ==> after.port == said_or(file.port, d.port)
            &&& env.dds_domain matches Some(text) ==> number_in(text, u32::MAX as int) == Some(
                after.domain_id as int,
            )
            &&& env.dds_domain is None ==> after.domain_id == said_or(file.domain_id, d.domain_id)
            &&& after.cyclonedds_uri == if env.cyclonedds_uri is Some {
                env.cyclonedds_uri
            } else {
                optional_text(file.cyclonedds_uri)
            }
            &&& after.max_connections == said_or(file.max_connections, d.max_connections)
            &&& after.idle_timeout_secs == said_or(file.idle_timeout_secs, d.idle_timeout_secs)
            &&& after.max_payload_size == said_or(file.max_payload_size, d.max_payload_size)
            &&& after.session_buffer_size == said_or(
                file.session_buffer_size,
                d.session_buffer_size,
            )
            &&& after.level == said_or(optional_text(file.level), d.level)
        },
{
    if let Some(text) = env.ws_port {
        let digits = unsigned_part(encode_utf8(text));
        if all_digits(digits) {
            lemma_digits_nonnegative(digits);
        }
    }
    if let Some(text) = env.dds_domain {
        let digits = unsigned_part(encode_utf8(text));
        if all_digits(digits) {
            lemma_digits_nonnegative(digits);
        }
    }
}

/// Without overrides the configuration stays as it is; with them, what is not
/// overridden stays as it is.
pub proof fn law_overrides_touch_only_their_settings(c: ConfigView, env: EnvView)
    ensures
        env.ws_addr is None && env.ws_port is None && env.dds_domain is None
            && env.cyclonedds_uri is None ==> overridden(c, env) == Ok::<
            ConfigView,
            ConfigErrorView,
        >(c),
        overridden(c, env) matches Ok(after) ==> {
            &&& after.max_connections == c.max_connections
            &&& after.idle_timeout_secs == c.idle_timeout_secs
            &&& after.max_payload_size == c.max_payload_size
            &&& after.session_buffer_size == c.session_buffer_size
            &&& after.level == c.level
            &&& env.ws_addr is None ==> after.addr == c.addr
            &&& env.ws_addr matches Some(addr) ==> after.addr == addr
            &&& env.ws_port is None ==> after.port == c.port
            &&& env.dds_domain is None ==> after.domain_id == c.domain_id
            &&& env.cyclonedds_uri is None ==> after.cyclonedds_uri == c.cyclonedds_uri
            &&& env.cyclonedds_uri is Some ==> after.cyclonedds_uri == env.cyclonedds_uri
        },
{
}

// ---------------------------------------------------------------------------
// What settings mean
// ---------------------------------------------------------------------------

/// The documented defaults.
pub proof fn law_documented_defaults()
    ensures
        ({
            let d = default_config();
            &&& d.addr == "127.0.0.1"@
            &&& d.port == 9876
            &&& d.max_connections == 64
            &&& d.idle_timeout_secs == 30
            &&& d.domain_id == 0
            &&& d.cyclonedds_uri is None
            &&& d.max_payload_size == 4 * 1024 * 1024
            &&& d.session_buffer_size == 256
            &&& d.level == "info"@
        }),
{
}

proof fn lemma_digit_bytes(text: Seq<char>)
    requires
        forall|i: int| 0 <= i < text.len() ==> '0' <= #[trigger] text[i] <= '9',
    ensures
        encode_utf8(text).len() == text.len(),
        all_digits(encode_utf8(text)),
        digits_value(encode_utf8(text)) == text_value(text, 10),
    decreases text.len(),
{
    let bytes = encode_utf8(text);
    assert(is_ascii_chars(text));
    is_ascii_chars_encode_utf8(text);
    assert forall|i: int| 0 <= i < bytes.len() implies 0x30 <= #[trigger] bytes[i] <= 0x39 by {
        assert(text[i] as u8 == bytes[i]);
    }
    if text.len() > 0 {
        let most = text.drop_last();
        assert forall|i: int| 0 <= i < most.len() implies '0' <= #[trigger] most[i] <= '9' by {
            assert(most[i] == text[i]);
        }
        lemma_digit_bytes(most);
        is_ascii_chars_encode_utf8(most);
        assert(bytes.drop_last() =~= encode_utf8(most)) by {
            assert forall|i: int| 0 <= i < most.len() implies bytes.drop_last()[i] == encode_utf8(
                most,
            )[i] by {
                assert(most[i] == text[i]);
                assert(text[i] as u8 == bytes[i]);
                assert(most[i] as u8 == encode_utf8(most)[i]);
            }
        }
        assert('0' <= text[text.len() - 1] <= '9');
        assert(text[text.len() - 1] as u8 == bytes[text.len() - 1]);
    }
}

/// A text of decimal digits, with or without a plus sign in front of it, is read as
/// the number that the digits stand for, where that is at most `max`, and not at
/// all where it is more.
pub proof fn law_digits_are_read_as_their_number(digits: Seq<char>, max: int)
    requires
        digits.len() > 0,
        forall|i: int| 0 <= i < digits.len() ==> '0' <= #[trigger] digits[i] <= '9',
    ensures
        number_in(digits, max) == (if text_value(digits, 10) <= max {
            Some(text_value(digits, 10))
        } else {
            None
        }),
        number_in(seq!['+'] + digits, max) == number_in(digits, max),
{
    lemma_digit_bytes(digits);
    let bytes = encode_utf8(digits);
    assert(0x30 <= bytes[0] <= 0x39);
    let signed = seq!['+'] + digits;
    assert(is_ascii_chars(signed)) by {
        assert forall|i: int| 0 <= i < signed.len() implies '\0' <= #[trigger] signed[i]
            <= '\u{7f}' by {
            if i > 0 {
                assert(signed[i] == digits[i - 1]);
            }
        }
    }
    assert(is_ascii_chars(digits));
    is_ascii_chars_encode_utf8(signed);
    is_ascii_chars_encode_utf8(digits);
    let all = encode_utf8(signed);
    assert(signed[0] as u8 == all[0]);
    assert(all.skip(1) =~= bytes) by {
        assert forall|i: int| 0 <= i < bytes.len() implies all.skip(1)[i] == bytes[i] by {
            assert(signed[i + 1] == digits[i]);
            assert(signed[i + 1] as u8 == all[i + 1]);
            assert(digits[i] as u8 == bytes[i]);
        }
    }
}

/// A number in decimal is read back, where it is at most `max`; and what is read
/// is never negative and never more than `max`.
pub proof fn law_numbers_are_read_back(n: nat, text: Seq<char>, max: int)
    ensures
        n <= max ==> number_in(decimal(n), max) == Some(n as int),
        n > max ==> number_in(decimal(n), max) is None,
        number_in(text, max) matches Some(v) ==> 0 <= v <= max,
        number_in(Seq::empty(), max) is None,
{
    law_decimal_stands_for_its_number(n);
    law_digits_are_read_as_their_number(decimal(n), max);
    let digits = unsigned_part(encode_utf8(text));
    if all_digits(digits) {
        lemma_digits_nonnegative(digits);
    }
}

/// A text with anything but a digit in it, apart from one plus sign in front, is
/// no number.
pub proof fn law_other_texts_are_no_numbers(text: Seq<char>, max: int, at: int)
    requires
        is_ascii_chars(text),
        0 <= at < text.len(),
        !('0' <= text[at] <= '9'),
        at > 0 || text[0] != '+' || text.len() == 1,
    ensures
        number_in(text, max) is None,
{
    is_ascii_chars_encode_utf8(text);
    let bytes = encode_utf8(text);
    assert(text[at] as u8 == bytes[at]);
    assert(text[0] as u8 == bytes[0]);
    let digits = unsigned_part(bytes);
    if digits.len() > 0 && all_digits(digits) {
        if bytes[0] == 0x2B {
            assert(text[0] == '+');
            assert(digits[at - 1] == bytes[at]);
        } else {
            assert(digits[at] == bytes[at]);
        }
    }
}

/// The environment is refused if and only if it gives a port that is no number up
/// to 65535, or a domain that is no number of 32 bits; the error names the
/// variable and what it says, the port first.
pub proof fn law_environments_that_are_refused(c: ConfigView, env: EnvView)
    ensures
        ({
            let port = env.ws_port is Some && number_in(env.ws_port->0, 65535) is None;
            let domain = env.dds_domain is Some && number_in(env.dds_domain->0, 0xFFFF_FFFF)
                is None;
            &&& overridden(c, env) is Err <==> port || domain
            &&& port ==> overridden(c, env) == Err::<ConfigView, ConfigErrorView>(
                ConfigErrorView::InvalidEnvVar("DDS_BRIDGE_WS_PORT"@, env.ws_port->0),
            )
            &&& domain && !port ==> overridden(c, env) == Err::<ConfigView, ConfigErrorView>(
                ConfigErrorView::InvalidEnvVar("DDS_BRIDGE_DDS_DOMAIN"@, env.dds_domain->0),
            )
        }),
{
}

/// The text of an error says what has failed, and names the file, the variable and
/// the value in full.
pub proof fn law_config_error_texts_hold_their_values(e: ConfigErrorView)
    ensures
        ({
            let text = e.message();
            match e {
                ConfigErrorView::FileRead(path, reason) => {
                    &&& stands_at(text, 0, "failed to read config file '"@)
                    &&& stands_at(text, 28, path)
                    &&& stands_at(text, (28 + path.len()) as int, "': "@)
                    &&& stands_at(text, (31 + path.len()) as int, reason)
                    &&& text.len() == 31 + path.len() + reason.len()
                },
                ConfigErrorView::Parse(reason) => {
                    &&& stands_at(text, 0, "failed to parse config: "@)
                    &&& stands_at(text, 24, reason)
                    &&& text.len() == 24 + reason.len()
                },
                ConfigErrorView::InvalidEnvVar(name, value) => {
                    &&& stands_at(text, 0, "invalid value for environment variable "@)
                    &&& stands_at(text, 39, name)
                    &&& stands_at(text, (39 + name.len()) as int, ": '"@)
                    &&& stands_at(text, (42 + name.len()) as int, value)
                    &&& stands_at(text, (42 + name.len() + value.len()) as int, "'"@)
                    &&& text.len() == 43 + name.len() + value.len()
                },
            }
        }),
{
    reveal_strlit("'");
    reveal_strlit("': ");
    reveal_strlit(": '");
    reveal_strlit("failed to parse config: ");
    reveal_strlit("failed to read config file '");
    reveal_strlit("invalid value for environment variable ");
    let text = e.message();
    match e {
        ConfigErrorView::FileRead(path, reason) => {
            let at = (0) as int;
            assert(text.subrange(at, at + "failed to read config file '"@.len()) =~= "failed to read config file '"@);
            let at = (28) as int;
            assert(text.subrange(at, at + path.len()) =~= path);
            let at = (28 + path.len()) as int;
            assert(text.subrange(at, at + "': "@.len()) =~= "': "@);
            let at = (31 + path.len()) as int;
            assert(text.subrange(at, at + reason.len()) =~= reason);
        },
        ConfigErrorView::Parse(reason) => {
            let at = (0) as int;
            assert(text.subrange(at, at + "failed to parse config: "@.len()) =~= "failed to parse config: "@);
            let at = (24) as int;
            assert(text.subrange(at, at + reason.len()) =~= reason);
        },
        ConfigErrorView::InvalidEnvVar(name, value) => {
            let at = (0) as int;
            assert(text.subrange(at, at + "invalid value for environment variable "@.len()) =~= "invalid value for environment variable "@);
            let at = (39) as int;
            assert(text.subrange(at, at + name.len()) =~= name);
            let at = (39 + name.len()) as int;
            assert(text.subrange(at, at + ": '"@.len()) =~= ": '"@);
            let at = (42 + name.len()) as int;
            assert(text.subrange(at, at + value.len()) =~= value);
            let at = (42 + name.len() + value.len()) as int;
            assert(text.subrange(at, at + "'"@.len()) =~= "'"@);
        },
    }
}

/// What the environment says is applied in an order: the address, the port, the
/// domain and the Cyclone DDS configuration. Where one of them is refused, those
/// before it have been applied, and it and those behind it have not.
pub proof fn law_overrides_stop_at_the_first_fault(c: ConfigView, env: EnvView)
    ensures
        ({
            let (r, after) = spec_apply_env_overrides(c, env);
            let addr = if env.ws_addr is Some {
                env.ws_addr->0
            } else {
                c.addr
            };
            let bad_port = env.ws_port is Some && number_in(env.ws_port->0, 65535) is None;
            let bad_domain = env.dds_domain is Some && number_in(env.dds_domain->0, 0xFFFF_FFFF)
                is None;
            &&& after.addr == addr
            &&& bad_port ==> after == (ConfigView { addr, ..c })
            &&& !bad_port ==> after.port == (if env.ws_port is Some {
                number_in(env.ws_port->0, 65535)->0
            } else {
                c.port as int
            })
            &&& !bad_port && bad_domain ==> after == (ConfigView { addr, port: after.port, ..c })
            &&& !bad_port && !bad_domain ==> r is Ok && after.domain_id == (
            if env.dds_domain is Some {
                number_in(env.dds_domain->0, 0xFFFF_FFFF)->0
            } else {
                c.domain_id as int
            }) && after.cyclonedds_uri == (if env.cyclonedds_uri is Some {
                env.cyclonedds_uri
            } else {
                c.cyclonedds_uri
            })
            &&& overridden(c, env) matches Ok(d) ==> d == after
        }),
{
    if env.ws_port is Some {
        law_numbers_are_read_back(0, env.ws_port->0, 65535);
    }
    if env.dds_domain is Some {
        law_numbers_are_read_back(0, env.dds_domain->0, 0xFFFF_FFFF);
    }
}

} // verus!
