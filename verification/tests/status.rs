use minerstatus::cache::Cache;
use minerstatus::motd::build_motd;
use minerstatus::status::{mc_to_ansi, mc_to_html, MotdResponse, PlayersResponse, StatusResponse};

const SECOND: u128 = 1_000_000_000;
const MILLI: u128 = 1_000_000;

fn sample_response() -> StatusResponse {
    StatusResponse {
        online: true,
        players: PlayersResponse { online: 3, max: 20 },
        delay_bits: 42.5f64.to_bits(),
        version: "1.20.1".to_string(),
        motd: MotdResponse {
            plain: "hi".to_string(),
            html: "hi".to_string(),
            minecraft: "hi".to_string(),
            ansi: "hi".to_string(),
        },
        icon: None,
    }
}

#[test]
fn html_converts_colors_and_bold() {
    assert_eq!(
        mc_to_html("§aGreen §lBold"),
        "<span style=\"color:#55FF55\">Green </span><span style=\"font-weight:bold\">Bold</span>"
    );
}

#[test]
fn html_reset_closes_open_span() {
    assert_eq!(
        mc_to_html("§cRed§r plain"),
        "<span style=\"color:#FF5555\">Red</span> plain"
    );
}

#[test]
fn ansi_converts_colors() {
    assert_eq!(mc_to_ansi("§aGreen"), "\x1b[92mGreen");
}

#[test]
fn ansi_reset_uses_reset_code() {
    assert_eq!(mc_to_ansi("§fHi§r"), "\x1b[97mHi\x1b[0m");
}

#[test]
fn plain_motd_strips_codes() {
    assert_eq!(build_motd("§aHypixel §c[1.8/1.21]").plain, "Hypixel [1.8/1.21]");
}

#[test]
fn cache_returns_stored_delay_on_hit() {
    let mut cache = Cache::new(60 * SECOND, 4);
    let key = "java:example.com".to_string();
    cache.insert(key.clone(), sample_response(), 1000 * SECOND);
    let hit = cache.get(&key, 1000 * SECOND + 5 * MILLI).expect("should be a cache hit");
    // The cached reply keeps the delay measured when it was stored, not 0.0.
    assert_eq!(f64::from_bits(hit.delay_bits), 42.5);
}

#[test]
fn cache_expires_after_ttl() {
    let mut cache = Cache::new(10 * MILLI, 4);
    let key = "java:example.net".to_string();
    let t0 = 1000 * SECOND;
    cache.insert(key.clone(), sample_response(), t0);
    assert!(cache.get(&key, t0).is_some());
    assert!(cache.get(&key, t0 + 30 * MILLI).is_none());
}

#[test]
fn cache_is_noop_when_ttl_zero() {
    let mut cache = Cache::new(0, 4);
    cache.insert("java:x".to_string(), sample_response(), 1000 * SECOND);
    assert!(cache.get("java:x", 1000 * SECOND).is_none());
    assert_eq!(cache.len(), 0);
}

#[test]
fn cache_evicts_oldest_over_capacity() {
    let mut cache = Cache::new(60 * SECOND, 2);
    let t0 = 1000 * SECOND;
    cache.insert("java:a".to_string(), sample_response(), t0);
    cache.insert("java:b".to_string(), sample_response(), t0 + 5 * MILLI);
    cache.insert("java:c".to_string(), sample_response(), t0 + 5 * MILLI);
    let now = t0 + 6 * MILLI;
    // "a" was the oldest and should have been evicted to stay at capacity 2.
    assert!(cache.get("java:a", now).is_none());
    assert!(cache.get("java:b", now).is_some());
    assert!(cache.get("java:c", now).is_some());
    assert_eq!(cache.len(), 2);
}

