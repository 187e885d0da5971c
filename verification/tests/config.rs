use minerstatus::config::{
    config_from_sources, parse_i64, resolve, Config, EnvSettings, Setting, TomlDocument, TomlValue,
};

fn no_env() -> EnvSettings {
    EnvSettings { host: None, port: None, cache_ttl: None, cache_max_size: None, timeout: None }
}

/// A document holding one table per section, in the order given.
fn document(sections: Vec<(&str, Vec<(&str, TomlValue)>)>) -> TomlDocument {
    TomlDocument {
        table: sections
            .into_iter()
            .map(|(section, keys)| {
                let keys = keys.into_iter().map(|(k, v)| (k.to_string(), v)).collect();
                (section.to_string(), TomlValue::Table(keys))
            })
            .collect(),
    }
}

#[test]
fn defaults() {
    let c = Config::default();
    assert_eq!(c.server.host, "0.0.0.0");
    assert_eq!(c.server.port, 3000);
    assert_eq!(c.cache.ttl_secs, 600);
    assert_eq!(c.cache.max_size, 100);
    assert_eq!(c.query.timeout_secs, 8);
}

#[test]
fn parses_integers_like_std() {
    for s in ["42", "-7", "+5", "0", "00012", "9223372036854775807", "-9223372036854775808",
              "", "-", "+", "1 ", " 1", "1.5", "abc", "9223372036854775808",
              "-9223372036854775809", "99999999999999999999999"] {
        assert_eq!(parse_i64(s), s.parse::<i64>().ok(), "input {s:?}");
    }
    assert_eq!(parse_i64("-9223372036854775808"), Some(i64::MIN));
}

#[test]
fn empty_sources_give_defaults() {
    let c = resolve(&TomlDocument { table: vec![] }, &no_env());
    assert_eq!(c.server.host, "0.0.0.0");
    assert_eq!(c.server.port, 3000);
    assert_eq!(c.cache.ttl_secs, 600);
    assert_eq!(c.cache.max_size, 100);
    assert_eq!(c.query.timeout_secs, 8);
}

#[test]
fn file_overrides_environment() {
    let doc = document(vec![
        ("server", vec![
            ("port", TomlValue::Integer(8080)),
            ("host", TomlValue::String("127.0.0.1".to_string())),
        ]),
        ("cache", vec![("ttl", TomlValue::Integer(0))]),
    ]);
    let env = EnvSettings {
        host: Some("10.0.0.1".to_string()),
        port: Some("9090".to_string()),
        cache_ttl: Some("30".to_string()),
        cache_max_size: None,
        timeout: None,
    };
    let c = resolve(&doc, &env);
    assert_eq!(c.server.port, 8080);
    assert_eq!(c.server.host, "127.0.0.1");
    assert_eq!(c.cache.ttl_secs, 0);
}

#[test]
fn environment_overrides_default() {
    let env = EnvSettings {
        host: Some("10.0.0.1".to_string()),
        port: Some("9090".to_string()),
        cache_ttl: Some("30".to_string()),
        cache_max_size: Some("7".to_string()),
        timeout: Some("bad".to_string()),
    };
    let c = resolve(&TomlDocument { table: vec![] }, &env);
    assert_eq!(c.server.host, "10.0.0.1");
    assert_eq!(c.server.port, 9090);
    assert_eq!(c.cache.ttl_secs, 30);
    assert_eq!(c.cache.max_size, 7);
    assert_eq!(c.query.timeout_secs, 8);
}

#[test]
fn wrong_type_in_file_falls_through() {
    let mut doc = document(vec![
        ("server", vec![
            ("port", TomlValue::String("8080".to_string())),
            ("host", TomlValue::Integer(1)),
        ]),
        ("query", vec![("timeout", TomlValue::Boolean(true))]),
        ("cache", vec![("port", TomlValue::Integer(1)), ("ttl", TomlValue::Float(2.0f64.to_bits()))]),
    ]);
    doc.table.push(("cache".to_string(), TomlValue::Integer(5)));
    let env = EnvSettings { port: Some("4000".to_string()), ..no_env() };
    let c = resolve(&doc, &env);
    assert_eq!(c.server.port, 4000);
    assert_eq!(c.server.host, "0.0.0.0");
    assert_eq!(c.query.timeout_secs, 8);
    assert_eq!(c.cache.ttl_secs, 600);
}

#[test]
fn out_of_range_numbers_fall_back() {
    let doc = document(vec![
        ("server", vec![("port", TomlValue::Integer(70000))]),
        ("cache", vec![("ttl", TomlValue::Integer(-1)), ("max_size", TomlValue::Integer(-5))]),
        ("query", vec![("timeout", TomlValue::Integer(-2))]),
    ]);
    let c = resolve(&doc, &no_env());
    assert_eq!(c.server.port, 3000);
    assert_eq!(c.cache.ttl_secs, 600);
    assert_eq!(c.cache.max_size, 100);
    assert_eq!(c.query.timeout_secs, 8);
}

#[test]
fn setting_names() {
    assert_eq!(Setting::Host.env_var(), "MINESTATUS_HOST");
    assert_eq!(Setting::Port.env_var(), "MINESTATUS_PORT");
    assert_eq!(Setting::CacheTtl.env_var(), "MINESTATUS_CACHE_TTL");
    assert_eq!(Setting::CacheMaxSize.env_var(), "MINESTATUS_CACHE_MAX_SIZE");
    assert_eq!(Setting::Timeout.env_var(), "MINESTATUS_TIMEOUT");
    assert_eq!(Setting::CacheMaxSize.section(), "cache");
    assert_eq!(Setting::CacheMaxSize.key(), "max_size");
    assert_eq!(Setting::Timeout.section(), "query");
}

#[test]
fn config_file_text_is_parsed() {
    let text = "[server]\nhost = \"127.0.0.1\"\nport = 8080\n\n[cache]\nttl = 0\nmax_size = 5\n\n[query]\ntimeout = 3\n";
    let env = EnvSettings { port: Some("9090".to_string()), ..no_env() };
    let c = config_from_sources(Some(text.to_string()), &env);
    assert_eq!(c.server.host, "127.0.0.1");
    assert_eq!(c.server.port, 8080);
    assert_eq!(c.cache.ttl_secs, 0);
    assert_eq!(c.cache.max_size, 5);
    assert_eq!(c.query.timeout_secs, 3);
}

#[test]
fn config_file_wrong_types_and_non_tables_fall_through() {
    let text = "server = 5\n[cache]\nttl = \"30\"\nmax_size = 1.5\n[query]\ntimeout = 2024-01-01T00:00:00Z\n[extra]\nlist = [1, 2]\n";
    let env = EnvSettings { cache_ttl: Some("45".to_string()), ..no_env() };
    let c = config_from_sources(Some(text.to_string()), &env);
    assert_eq!(c.server.port, 3000);
    assert_eq!(c.cache.ttl_secs, 45);
    assert_eq!(c.cache.max_size, 100);
}

#[test]
fn invalid_or_absent_config_file_gives_environment_and_defaults() {
    let env = EnvSettings { timeout: Some("12".to_string()), ..no_env() };
    let c = config_from_sources(Some("[server\nport = = 1".to_string()), &env);
    assert_eq!(c.server.port, 3000);
    assert_eq!(c.query.timeout_secs, 12);
    let c = config_from_sources(None, &no_env());
    assert_eq!(c.server.host, "0.0.0.0");
    assert_eq!(c.cache.ttl_secs, 600);
}

#[test]
fn nested_tables_and_dotted_sections_are_read() {
    let text = "[server]\nport = 9000\n[server.extra]\nport = 1\n[cache]\nmax_size = 3 # comment\n";
    let c = config_from_sources(Some(text.to_string()), &no_env());
    assert_eq!(c.server.port, 9000);
    assert_eq!(c.cache.max_size, 3);
}
