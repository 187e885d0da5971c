//! Configuration: the settings, their defaults, and their resolution from a
//! `config.toml` document and `MINESTATUS_*` environment variables.
//!
//! Priority: `config.toml` > environment variables > defaults.

use vstd::prelude::*;

use vstd::string::StringExecFns;

verus! {

/// Where the HTTP server listens.
pub struct ServerConfig {
    pub host: String,
    pub port: u16,
}

/// The response cache.
pub struct CacheConfig {
    /// Time-to-live in seconds; `0` disables the cache.
    pub ttl_secs: u64,
    /// Maximum number of cached entries.
    pub max_size: usize,
}

/// Status queries.
pub struct QueryConfig {
    /// Timeout of DNS resolution and connection, in seconds.
    pub timeout_secs: u64,
}

/// All settings.
pub struct Config {
    pub server: ServerConfig,
    pub cache: CacheConfig,
    pub query: QueryConfig,
}

/// Default bind address.
pub open spec fn default_host() -> Seq<char> {
    "0.0.0.0"@
}

/// Default listen port.
pub const DEFAULT_PORT: i64 = 3000;

/// Default cache time-to-live, in seconds.
pub const DEFAULT_TTL: i64 = 600;

/// Default cache capacity.
pub const DEFAULT_MAX_SIZE: i64 = 100;

/// Default query timeout, in seconds.
pub const DEFAULT_TIMEOUT: i64 = 8;

impl Config {
    /// The built-in defaults.
    pub fn default() -> (c: Config)
        ensures
            c.server.host@ == default_host(),
            c.server.port == DEFAULT_PORT,
            c.cache.ttl_secs == DEFAULT_TTL,
            c.cache.max_size == DEFAULT_MAX_SIZE,
            c.query.timeout_secs == DEFAULT_TIMEOUT,
    {
        Config {
            server: ServerConfig { host: String::from_str("0.0.0.0"), port: 3000 },
            cache: CacheConfig { ttl_secs: 600, max_size: 100 },
            query: QueryConfig { timeout_secs: 8 },
        }
    }
}

/// A TOML value, as `toml::Value` holds it.
pub enum TomlValue {
    String(String),
    Integer(i64),
    /// Bit pattern of the float (`f64::to_bits`); this library never reads it.
    Float(u64),
    Boolean(bool),
    /// The date-time as TOML writes it.
    Datetime(String),
    Array(Vec<TomlValue>),
    /// Key and value pairs, in the order the table yields them.
    Table(Vec<(String, TomlValue)>),
}

/// A `config.toml` document: its top-level table (empty when the file is
/// absent, unreadable or not valid TOML).
pub struct TomlDocument {
    pub table: Vec<(String, TomlValue)>,
}

/// The document that the TOML text `text` parses into, or `None` when
/// `text` is not valid TOML.
pub uninterp spec fn toml_parsed(text: Seq<char>) -> Option<TomlDocument>;

#[verifier::external_type_specification]
#[verifier::external_body]
pub struct ExTomlValue(toml::Value);

/// Converts a `toml::Value` variant for variant (recursively for arrays and
/// tables) into a [`TomlValue`].
///
/// Trusted: a conversion that makes no decision; nothing is claimed of it
/// apart from what [`parse_toml`] claims.
#[verifier::external_body]
fn toml_value_of(v: toml::Value) -> TomlValue {
    match v {
        toml::Value::String(s) => TomlValue::String(s),
        toml::Value::Integer(n) => TomlValue::Integer(n),
        toml::Value::Float(x) => TomlValue::Float(x.to_bits()),
        toml::Value::Boolean(b) => TomlValue::Boolean(b),
        toml::Value::Datetime(d) => TomlValue::Datetime(d.to_string()),
        toml::Value::Array(a) => TomlValue::Array(a.into_iter().map(toml_value_of).collect()),
        toml::Value::Table(t) => TomlValue::Table(t.into_iter().map(|(k, v)| (k, toml_value_of(v))).collect()),
    }
}

/// Calls `toml::from_str::<toml::Table>` on `text`, a TOML document, and
/// converts its top-level table one value for one.
///
/// Trusted: parsing depends on the text alone, so its result is named by
/// [`toml_parsed`]; nothing more is claimed of it.
#[verifier::external_body]
fn parse_toml(text: &str) -> (r: Option<TomlDocument>)
    ensures
        r == toml_parsed(text@),
{
    match toml::from_str::<toml::Table>(text) {
        Ok(t) => Some(TomlDocument { table: t.into_iter().map(|(k, v)| (k, toml_value_of(v))).collect() }),
        Err(_) => None,
    }
}

/// The value under `key` in a table: the first matching pair.
pub open spec fn table_get(t: Seq<(String, TomlValue)>, key: Seq<char>) -> Option<TomlValue>
    decreases t.len(),
{
    if t.len() == 0 {
        None
    } else if t[0].0@ == key {
        Some(t[0].1)
    } else {
        table_get(t.drop_first(), key)
    }
}

/// The value of `key` in the table `section` of `doc`; `None` when the
/// section is absent or is not a table, or the key is absent.
pub open spec fn toml_setting(doc: TomlDocument, section: Seq<char>, key: Seq<char>) -> Option<
    TomlValue,
> {
    match table_get(doc.table@, section) {
        Some(TomlValue::Table(s)) => table_get(s@, key),
        _ => None,
    }
}

/// The integer at `section.key`, if there is one of that type.
pub open spec fn toml_int(doc: TomlDocument, section: Seq<char>, key: Seq<char>) -> Option<i64> {
    match toml_setting(doc, section, key) {
        Some(TomlValue::Integer(n)) => Some(n),
        _ => None,
    }
}

/// The string at `section.key`, if there is one of that type.
pub open spec fn toml_text(doc: TomlDocument, section: Seq<char>, key: Seq<char>) -> Option<
    Seq<char>,
> {
    match toml_setting(doc, section, key) {
        Some(TomlValue::String(s)) => Some(s@),
        _ => None,
    }
}

/// A setting that can be configured.
#[derive(Clone, Copy, PartialEq, Eq, Structural)]
pub enum Setting {
    Host,
    Port,
    CacheTtl,
    CacheMaxSize,
    Timeout,
}

/// The `config.toml` table of a setting.
pub open spec fn section_of(s: Setting) -> Seq<char> {
    match s {
        Setting::Host | Setting::Port => "server"@,
        Setting::CacheTtl | Setting::CacheMaxSize => "cache"@,
        Setting::Timeout => "query"@,
    }
}

/// The key of a setting in its table.
pub open spec fn key_of(s: Setting) -> Seq<char> {
    match s {
        Setting::Host => "host"@,
        Setting::Port => "port"@,
        Setting::CacheTtl => "ttl"@,
        Setting::CacheMaxSize => "max_size"@,
        Setting::Timeout => "timeout"@,
    }
}

/// The environment variable of a setting.
pub open spec fn env_var_of(s: Setting) -> Seq<char> {
    match s {
        Setting::Host => "MINESTATUS_HOST"@,
        Setting::Port => "MINESTATUS_PORT"@,
        Setting::CacheTtl => "MINESTATUS_CACHE_TTL"@,
        Setting::CacheMaxSize => "MINESTATUS_CACHE_MAX_SIZE"@,
        Setting::Timeout => "MINESTATUS_TIMEOUT"@,
    }
}

impl Setting {
    /// The `config.toml` table of the setting.
    pub fn section(self) -> (r: &'static str)
        ensures
            r@ == section_of(self),
    {
        match self {
            Setting::Host | Setting::Port => "server",
            Setting::CacheTtl | Setting::CacheMaxSize => "cache",
            Setting::Timeout => "query",
        }
    }

    /// The key of the setting in its table.
    pub fn key(self) -> (r: &'static str)
        ensures
            r@ == key_of(self),
    {
        match self {
            Setting::Host => "host",
            Setting::Port => "port",
            Setting::CacheTtl => "ttl",
            Setting::CacheMaxSize => "max_size",
            Setting::Timeout => "timeout",
        }
    }

    /// The environment variable of the setting.
    pub fn env_var(self) -> (r: &'static str)
        ensures
            r@ == env_var_of(self),
    {
        match self {
            Setting::Host => "MINESTATUS_HOST",
            Setting::Port => "MINESTATUS_PORT",
            Setting::CacheTtl => "MINESTATUS_CACHE_TTL",
            Setting::CacheMaxSize => "MINESTATUS_CACHE_MAX_SIZE",
            Setting::Timeout => "MINESTATUS_TIMEOUT",
        }
    }
}

/// The raw values of the `MINESTATUS_*` environment variables that are set.
pub struct EnvSettings {
    pub host: Option<String>,
    pub port: Option<String>,
    pub cache_ttl: Option<String>,
    pub cache_max_size: Option<String>,
    pub timeout: Option<String>,
}

/// Value of a decimal digit.
pub open spec fn digit_value(c: char) -> int {
    (c as int) - ('0' as int)
}

/// All characters are ASCII digits.
pub open spec fn all_digits(s: Seq<char>) -> bool {
    forall|i: int| 0 <= i < s.len() ==> '0' <= #[trigger] s[i] && s[i] <= '9'
}

/// Value of a string of decimal digits.
pub open spec fn digits_value(s: Seq<char>) -> int
    decreases s.len(),
{
    if s.len() == 0 {
        0
    } else {
        digits_value(s.drop_last()) * 10 + digit_value(s.last())
    }
}

/// `s` without its sign, if it has one.
pub open spec fn unsigned_part(s: Seq<char>) -> Seq<char> {
    if s.len() > 0 && (s[0] == '-' || s[0] == '+') {
        s.drop_first()
    } else {
        s
    }
}

/// The signed value of `s`, read as a sign and digits.
pub open spec fn signed_value(s: Seq<char>) -> int {
    if s.len() > 0 && s[0] == '-' {
        -digits_value(unsigned_part(s))
    } else {
        digits_value(unsigned_part(s))
    }
}

/// `i64::from_str`: an optional `+` or `-`, then one or more ASCII digits,
/// whose value fits in an `i64`; anything else (white space included) is
/// rejected.
pub open spec fn parsed_i64(s: Seq<char>) -> Option<i64> {
    let digits = unsigned_part(s);
    if digits.len() == 0 || !all_digits(digits) || signed_value(s) < i64::MIN || signed_value(s)
        > i64::MAX {
        None
    } else {
        Some(signed_value(s) as i64)
    }
}

proof fn lemma_digits_value_nonneg(s: Seq<char>)
    requires
        all_digits(s),
    ensures
        digits_value(s) >= 0,
    decreases s.len(),
{
    if s.len() > 0 {
        assert(all_digits(s.drop_last())) by {
            assert forall|i: int| 0 <= i < s.drop_last().len() implies '0' <= #[trigger] s.drop_last()[i]
                && s.drop_last()[i] <= '9' by {
                assert(s.drop_last()[i] == s[i]);
            }
        }
        lemma_digits_value_nonneg(s.drop_last());
        assert('0' <= s[s.len() - 1]);
    }
}

proof fn lemma_digits_value_grows(s: Seq<char>, k: int)
    requires
        all_digits(s),
        0 <= k <= s.len(),
    ensures
        digits_value(s.take(k)) <= digits_value(s),
    decreases s.len() - k,
{
    if k < s.len() {
        let t = s.take(k + 1);
        assert(t.drop_last() =~= s.take(k));
        assert(all_digits(t)) by {
            assert forall|i: int| 0 <= i < t.len() implies '0' <= #[trigger] t[i] && t[i] <= '9' by {
                assert(t[i] == s[i]);
            }
        }
        lemma_digits_value_nonneg(s.take(k));
        assert(t.last() == s[k]);
        assert('0' <= s[k]);
        lemma_digits_value_grows(s, k + 1);
    } else {
        assert(s.take(k) =~= s);
    }
}

/// Parses a decimal `i64` as `i64::from_str` does.
pub fn parse_i64(text: &str) -> (r: Option<i64>)
    ensures
        r == parsed_i64(text@),
{
    let s = crate::text::chars_of(text);
    let n = s.len();
    let negative = n > 0 && s[0] == '-';
    let start: usize = if n > 0 && (s[0] == '-' || s[0] == '+') { 1 } else { 0 };
    let ghost digits = s@.skip(start as int);
    assert(digits =~= unsigned_part(text@));
    if start == n {
        return None;
    }
    let limit: i128 = 9223372036854775808;
    let mut acc: i128 = 0;
    let mut i: usize = start;
    while i < n
        invariant
            start <= i <= n,
            n == s@.len(),
            s@ == text@,
            negative == (s@.len() > 0 && s@[0] == '-'),
            digits == s@.skip(start as int),
            digits == unsigned_part(text@),
            all_digits(digits.take(i - start)),
            acc as int == digits_value(digits.take(i - start)),
            0 <= acc <= limit,
            limit == 9223372036854775808i128,
        decreases n - i,
    {
        let c = s[i];
        if c < '0' || c > '9' {
            assert(!all_digits(digits)) by {
                assert(digits[i - start] == s@[i as int]);
            }
            return None;
        }
        let d: i128 = (c as u32 - '0' as u32) as i128;
        assert(d as int == digit_value(c));
        let ghost t = digits.take(i - start + 1);
        assert(t.drop_last() =~= digits.take(i - start));
        assert(t.last() == c);
        assert(all_digits(t)) by {
            assert forall|j: int| 0 <= j < t.len() implies '0' <= #[trigger] t[j] && t[j] <= '9' by {
                if j < t.len() - 1 {
                    assert(t[j] == digits.take(i - start)[j]);
                }
            }
        }
        assert(acc * 10 <= limit * 10) by (nonlinear_arith)
            requires
                0 <= acc <= limit,
        ;
        acc = acc * 10 + d;
        i = i + 1;
        if acc > limit {
            proof {
                if all_digits(digits) {
                    lemma_digits_value_grows(digits, i - start);
                }
            }
            return None;
        }
    }
    assert(digits.take(n - start) =~= digits);
    if negative {
        Some((0 - acc) as i64)
    } else if acc == limit {
        None
    } else {
        Some(acc as i64)
    }
}

/// The integer of a setting: the document's, else the environment's when it
/// parses, else the default.
pub open spec fn int_setting(doc: Option<i64>, env: Option<String>, default: i64) -> i64 {
    match doc {
        Some(n) => n,
        None => match env {
            Some(raw) => match parsed_i64(raw@) {
                Some(n) => n,
                None => default,
            },
            None => default,
        },
    }
}

/// The string of a setting: the document's, else the environment's, else
/// the default.
pub open spec fn text_setting(doc: Option<Seq<char>>, env: Option<String>, default: Seq<char>) -> Seq<
    char,
> {
    match doc {
        Some(s) => s,
        None => match env {
            Some(raw) => raw@,
            None => default,
        },
    }
}

fn table_lookup<'a>(t: &'a Vec<(String, TomlValue)>, key: &str) -> (r: Option<&'a TomlValue>)
    ensures
        match r {
            Some(v) => table_get(t@, key@) == Some(*v),
            None => table_get(t@, key@) is None,
        },
{
    let k = String::from_str(key);
    let n = t.len();
    let mut i: usize = 0;
    assert(t@.skip(0) =~= t@);
    while i < n
        invariant
            i <= n,
            n == t@.len(),
            k@ == key@,
            table_get(t@, key@) == table_get(t@.skip(i as int), key@),
        decreases n - i,
    {
        let e = &t[i];
        assert(t@.skip(i as int)[0] == t@[i as int]);
        assert(t@.skip(i as int).drop_first() =~= t@.skip(i + 1));
        if e.0 == k {
            return Some(&e.1);
        }
        i = i + 1;
    }
    None
}

fn lookup_setting<'a>(doc: &'a TomlDocument, section: &str, key: &str) -> (r: Option<&'a TomlValue>)
    ensures
        match r {
            Some(v) => toml_setting(*doc, section@, key@) == Some(*v),
            None => toml_setting(*doc, section@, key@) is None,
        },
{
    match table_lookup(&doc.table, section) {
        Some(TomlValue::Table(s)) => table_lookup(s, key),
        _ => None,
    }
}

/// Integer setting from `[section] key`, else the environment value, else
/// `default`. `0` is a legitimate value, never taken as missing.
pub fn int_or(doc: &TomlDocument, section: &str, key: &str, env: &Option<String>, default: i64) -> (r:
    i64)
    ensures
        r == int_setting(toml_int(*doc, section@, key@), *env, default),
{
    match lookup_setting(doc, section, key) {
        Some(TomlValue::Integer(n)) => {
            return *n;
        },
        _ => {},
    }
    match env {
        Some(raw) => match parse_i64(raw.as_str()) {
            Some(n) => n,
            None => default,
        },
        None => default,
    }
}

/// String setting from `[section] key`, else the environment value, else
/// `default`.
pub fn string_or(doc: &TomlDocument, section: &str, key: &str, env: &Option<String>, default: &str) -> (r:
    String)
    ensures
        r@ == text_setting(toml_text(*doc, section@, key@), *env, default@),
{
    match lookup_setting(doc, section, key) {
        Some(TomlValue::String(s)) => {
            return s.clone();
        },
        _ => {},
    }
    match env {
        Some(raw) => raw.clone(),
        None => String::from_str(default),
    }
}

/// `n` as a port, or `fallback` when it is out of range.
pub open spec fn port_or(n: i64, fallback: u16) -> u16 {
    if 0 <= n <= u16::MAX { n as u16 } else { fallback }
}

/// `n` as a count of seconds, or `fallback` when it is negative.
pub open spec fn secs_or(n: i64, fallback: u64) -> u64 {
    if 0 <= n { n as u64 } else { fallback }
}

/// `n` as a size, or `fallback` when it is out of range.
pub open spec fn size_or(n: i64, fallback: usize) -> usize {
    if 0 <= n <= usize::MAX { n as usize } else { fallback }
}

/// `c` is the configuration that `doc` and `env` give: each setting comes
/// from `config.toml` when the key is there with the right type, else from
/// its environment variable (which must parse, for numbers), else from the
/// default; numbers out of their type's range fall back to the default.
pub open spec fn resolved(doc: TomlDocument, env: EnvSettings, c: Config) -> bool {
    &&& c.server.host@ == text_setting(
        toml_text(doc, "server"@, "host"@),
        env.host,
        default_host(),
    )
    &&& c.server.port == port_or(
        int_setting(toml_int(doc, "server"@, "port"@), env.port, DEFAULT_PORT),
        DEFAULT_PORT as u16,
    )
    &&& c.cache.ttl_secs == secs_or(
        int_setting(toml_int(doc, "cache"@, "ttl"@), env.cache_ttl, DEFAULT_TTL),
        DEFAULT_TTL as u64,
    )
    &&& c.cache.max_size == size_or(
        int_setting(toml_int(doc, "cache"@, "max_size"@), env.cache_max_size, DEFAULT_MAX_SIZE),
        DEFAULT_MAX_SIZE as usize,
    )
    &&& c.query.timeout_secs == secs_or(
        int_setting(toml_int(doc, "query"@, "timeout"@), env.timeout, DEFAULT_TIMEOUT),
        DEFAULT_TIMEOUT as u64,
    )
}

/// The configuration that `doc` and `env` give (see [`resolved`]).
pub fn resolve(doc: &TomlDocument, env: &EnvSettings) -> (c: Config)
    ensures
        resolved(*doc, *env, c),
{
    let mut result = Config::default();
    let (sec, key) = (Setting::Host.section(), Setting::Host.key());
    result.server.host = string_or(doc, sec, key, &env.host, "0.0.0.0");
    let (sec, key) = (Setting::Port.section(), Setting::Port.key());
    let port = int_or(doc, sec, key, &env.port, DEFAULT_PORT);
    result.server.port = if 0 <= port && port <= 65535 { port as u16 } else { 3000 };
    let (sec, key) = (Setting::CacheTtl.section(), Setting::CacheTtl.key());
    let ttl = int_or(doc, sec, key, &env.cache_ttl, DEFAULT_TTL);
    result.cache.ttl_secs = if 0 <= ttl { ttl as u64 } else { 600 };
    let (sec, key) = (Setting::CacheMaxSize.section(), Setting::CacheMaxSize.key());
    let size = int_or(doc, sec, key, &env.cache_max_size, DEFAULT_MAX_SIZE);
    result.cache.max_size = if 0 <= size && (size as u64) <= (usize::MAX as u64) {
        size as usize
    } else {
        100
    };
    let (sec, key) = (Setting::Timeout.section(), Setting::Timeout.key());
    let timeout = int_or(doc, sec, key, &env.timeout, DEFAULT_TIMEOUT);
    result.query.timeout_secs = if 0 <= timeout { timeout as u64 } else { 8 };
    result
}

/// With no `config.toml` keys and no environment variables, every setting
/// takes its default.
pub proof fn law_empty_sources_give_defaults(doc: TomlDocument, env: EnvSettings, c: Config)
    requires
        doc.table@.len() == 0,
        env.host is None,
        env.port is None,
        env.cache_ttl is None,
        env.cache_max_size is None,
        env.timeout is None,
        resolved(doc, env, c),
    ensures
        c.server.host@ == "0.0.0.0"@,
        c.server.port == 3000,
        c.cache.ttl_secs == 600,
        c.cache.max_size == 100,
        c.query.timeout_secs == 8,
{
}

/// A key set in `config.toml` with the right type decides its setting,
/// whatever the environment holds; `0` counts as a value.
pub proof fn law_file_overrides_environment(
    doc: TomlDocument,
    env: EnvSettings,
    c: Config,
    ttl: i64,
)
    requires
        toml_int(doc, "cache"@, "ttl"@) == Some(ttl),
        0 <= ttl,
        resolved(doc, env, c),
    ensures
        c.cache.ttl_secs == ttl,
{
}

/// Without the key in `config.toml`, a parsable environment value decides
/// the setting.
pub proof fn law_environment_overrides_default(
    doc: TomlDocument,
    env: EnvSettings,
    c: Config,
    raw: String,
    port: i64,
)
    requires
        toml_int(doc, "server"@, "port"@) is None,
        env.port == Some(raw),
        parsed_i64(raw@) == Some(port),
        0 <= port <= 65535,
        resolved(doc, env, c),
    ensures
        c.server.port == port,
{
}

/// The top-level table that the text of `config.toml` gives: empty when
/// the file is absent or is not valid TOML.
pub open spec fn file_table(file_text: Option<String>) -> Seq<(String, TomlValue)> {
    match file_text {
        Some(text) => match toml_parsed(text@) {
            Some(doc) => doc.table@,
            None => Seq::empty(),
        },
        None => Seq::empty(),
    }
}

/// The configuration given by the text of `config.toml` (`None` when the
/// file is absent or unreadable) and the environment.
pub fn config_from_sources(file_text: Option<String>, env: &EnvSettings) -> (c: Config)
    ensures
        exists|d: TomlDocument| #[trigger] resolved(d, *env, c) && d.table@ == file_table(file_text),
{
    let doc = match &file_text {
        Some(text) => match parse_toml(text.as_str()) {
            Some(d) => d,
            None => TomlDocument { table: Vec::new() },
        },
        None => TomlDocument { table: Vec::new() },
    };
    let c = resolve(&doc, env);
    assert(resolved(doc, *env, c) && doc.table@ == file_table(file_text));
    c
}

/// Each setting found in `config.toml` with the right type decides its
/// value when the value fits its type: the host as given, a port in
/// `0..=65535`, a non-negative time-to-live or timeout, a cache size in
/// `0..=usize::MAX`. A number out of range gives the built-in default.
pub proof fn law_file_values_decide(doc: TomlDocument, env: EnvSettings, c: Config)
    requires
        resolved(doc, env, c),
    ensures
        forall|h: Seq<char>| toml_text(doc, "server"@, "host"@) == Some(h) ==> c.server.host@ == h,
        forall|n: i64|
            toml_int(doc, "server"@, "port"@) == Some(n) ==> c.server.port == (if 0 <= n
                <= 65535 {
                n
            } else {
                3000
            }),
        forall|n: i64|
            toml_int(doc, "cache"@, "ttl"@) == Some(n) ==> c.cache.ttl_secs == (if 0 <= n {
                n
            } else {
                600
            }),
        forall|n: i64|
            toml_int(doc, "cache"@, "max_size"@) == Some(n) ==> c.cache.max_size == (if 0 <= n
                <= usize::MAX {
                n
            } else {
                100
            }),
        forall|n: i64|
            toml_int(doc, "query"@, "timeout"@) == Some(n) ==> c.query.timeout_secs == (if 0
                <= n {
                n
            } else {
                8
            }),
{
}

/// Where `config.toml` does not set a number, an environment value that
/// reads as a decimal integer in range decides it; the host is taken from
/// the environment as it is.
pub proof fn law_environment_values_decide(doc: TomlDocument, env: EnvSettings, c: Config)
    requires
        resolved(doc, env, c),
    ensures
        toml_text(doc, "server"@, "host"@) is None && env.host is Some ==> c.server.host@
            == env.host->0@,
        forall|n: i64|
            toml_int(doc, "server"@, "port"@) is None && env.port is Some && parsed_i64(
                env.port->0@,
            ) == Some(n) && 0 <= n <= 65535 ==> c.server.port == n,
        forall|n: i64|
            toml_int(doc, "cache"@, "ttl"@) is None && env.cache_ttl is Some && parsed_i64(
                env.cache_ttl->0@,
            ) == Some(n) && 0 <= n ==> c.cache.ttl_secs == n,
        forall|n: i64|
            toml_int(doc, "cache"@, "max_size"@) is None && env.cache_max_size is Some
                && parsed_i64(env.cache_max_size->0@) == Some(n) && 0 <= n <= usize::MAX
                ==> c.cache.max_size == n,
        forall|n: i64|
            toml_int(doc, "query"@, "timeout"@) is None && env.timeout is Some && parsed_i64(
                env.timeout->0@,
            ) == Some(n) && 0 <= n ==> c.query.timeout_secs == n,
{
}

/// A decimal integer reads as its value: digits after an optional sign,
/// with `-` negating, and nothing else accepted.
pub proof fn law_decimal_digits_read(d: char, e: char)
    requires
        '0' <= d <= '9',
        '0' <= e <= '9',
    ensures
        parsed_i64(seq![d]) == Some((d as int - '0' as int) as i64),
        parsed_i64(seq![d, e]) == Some(((d as int - '0' as int) * 10 + (e as int - '0' as int)) as i64),
        parsed_i64(seq!['-', d]) == Some((-(d as int - '0' as int)) as i64),
        parsed_i64(seq!['+', d]) == Some((d as int - '0' as int) as i64),
        parsed_i64(Seq::<char>::empty()) is None,
        parsed_i64(seq!['-']) is None,
        parsed_i64(seq![' ', d]) is None,
        parsed_i64(seq![d, ' ']) is None,
{
    assert(seq![d, e].drop_last() =~= seq![d]);
    assert(seq!['-', d].drop_first() =~= seq![d]);
    assert(seq!['+', d].drop_first() =~= seq![d]);
    assert(seq![d].drop_last() =~= Seq::<char>::empty());
    assert(seq!['-'].drop_first() =~= Seq::<char>::empty());
    assert(!all_digits(seq![' ', d])) by {
        assert(seq![' ', d][0] == ' ');
    }
    assert(!all_digits(seq![d, ' '])) by {
        assert(seq![d, ' '][1] == ' ');
    }
}

/// The documented defaults and environment variable names.
pub proof fn law_documented_defaults_and_names()
    ensures
        default_host() == "0.0.0.0"@,
        DEFAULT_PORT == 3000,
        DEFAULT_TTL == 600,
        DEFAULT_MAX_SIZE == 100,
        DEFAULT_TIMEOUT == 8,
        env_var_of(Setting::Host) == "MINESTATUS_HOST"@,
        env_var_of(Setting::Port) == "MINESTATUS_PORT"@,
        env_var_of(Setting::CacheTtl) == "MINESTATUS_CACHE_TTL"@,
        env_var_of(Setting::CacheMaxSize) == "MINESTATUS_CACHE_MAX_SIZE"@,
        env_var_of(Setting::Timeout) == "MINESTATUS_TIMEOUT"@,
        section_of(Setting::Host) == "server"@ && key_of(Setting::Host) == "host"@,
        section_of(Setting::Port) == "server"@ && key_of(Setting::Port) == "port"@,
        section_of(Setting::CacheTtl) == "cache"@ && key_of(Setting::CacheTtl) == "ttl"@,
        section_of(Setting::CacheMaxSize) == "cache"@ && key_of(Setting::CacheMaxSize)
            == "max_size"@,
        section_of(Setting::Timeout) == "query"@ && key_of(Setting::Timeout) == "timeout"@,
{
}

} // verus!
