use minerstatus::cache::Cache;
use minerstatus::config::CacheConfig;
use minerstatus::status::{MotdResponse, PlayersResponse, StatusResponse};

const SECOND: u128 = 1_000_000_000;

fn response(version: &str, delay: f64) -> StatusResponse {
    StatusResponse {
        online: true,
        players: PlayersResponse { online: 1, max: 10 },
        delay_bits: delay.to_bits(),
        version: version.to_string(),
        motd: MotdResponse {
            plain: "m".to_string(),
            html: "m".to_string(),
            minecraft: "m".to_string(),
            ansi: "m".to_string(),
        },
        icon: Some("icon".to_string()),
    }
}

#[test]
fn read_back_what_was_stored() {
    let mut cache = Cache::new(10 * SECOND, 3);
    cache.insert("java:h".to_string(), response("1.21", 12.25), 100 * SECOND);
    let hit = cache.get("java:h", 105 * SECOND).unwrap();
    assert_eq!(hit.version, "1.21");
    assert_eq!(f64::from_bits(hit.delay_bits), 12.25);
    assert_eq!(hit.icon.as_deref(), Some("icon"));
    assert!(cache.get("bedrock:h", 105 * SECOND).is_none());
}

#[test]
fn entry_expires_exactly_at_ttl() {
    let mut cache = Cache::new(10 * SECOND, 3);
    cache.insert("k".to_string(), response("v", 1.0), 100 * SECOND);
    assert!(cache.get("k", 110 * SECOND - 1).is_some());
    assert!(cache.get("k", 110 * SECOND).is_none());
}

#[test]
fn entry_stored_in_the_future_counts_as_expired() {
    let mut cache = Cache::new(10 * SECOND, 3);
    cache.insert("k".to_string(), response("v", 1.0), 100 * SECOND);
    assert!(cache.get("k", 99 * SECOND).is_none());
}

#[test]
fn overwrite_replaces_response() {
    let mut cache = Cache::new(10 * SECOND, 3);
    cache.insert("k".to_string(), response("old", 1.0), 100 * SECOND);
    cache.insert("k".to_string(), response("new", 2.0), 101 * SECOND);
    assert_eq!(cache.get("k", 102 * SECOND).unwrap().version, "new");
    assert_eq!(cache.len(), 1);
}

#[test]
fn full_cache_evicts_oldest_even_when_key_is_present() {
    let mut cache = Cache::new(10 * SECOND, 2);
    cache.insert("a".to_string(), response("a", 1.0), 100 * SECOND);
    cache.insert("b".to_string(), response("b", 1.0), 101 * SECOND);
    cache.insert("b".to_string(), response("b2", 1.0), 102 * SECOND);
    assert!(cache.get("a", 103 * SECOND).is_none());
    assert_eq!(cache.get("b", 103 * SECOND).unwrap().version, "b2");
    assert_eq!(cache.len(), 1);
}

#[test]
fn zero_capacity_is_raised_to_one() {
    let mut cache = Cache::new(10 * SECOND, 0);
    cache.insert("a".to_string(), response("a", 1.0), 100 * SECOND);
    cache.insert("b".to_string(), response("b", 1.0), 101 * SECOND);
    assert_eq!(cache.len(), 1);
    assert!(cache.get("a", 102 * SECOND).is_none());
    assert!(cache.get("b", 102 * SECOND).is_some());
}

#[test]
fn cache_from_config_uses_seconds() {
    let mut cache = Cache::from_config(&CacheConfig { ttl_secs: 2, max_size: 5 });
    cache.insert("k".to_string(), response("v", 1.0), 100 * SECOND);
    assert!(cache.get("k", 102 * SECOND - 1).is_some());
    assert!(cache.get("k", 102 * SECOND).is_none());
    let mut off = Cache::from_config(&CacheConfig { ttl_secs: 0, max_size: 5 });
    off.insert("k".to_string(), response("v", 1.0), 100 * SECOND);
    assert_eq!(off.len(), 0);
}

#[test]
fn capacity_holds_over_a_long_run() {
    for max_size in [0usize, 1, 3] {
        let mut cache = Cache::new(10 * SECOND, max_size);
        for i in 0..50u128 {
            let key = format!("java:h{}", i % 7);
            cache.insert(key.clone(), response("v", 1.0), 100 * SECOND + i);
            assert!(cache.len() <= max_size.max(1));
            assert!(cache.get(&key, 100 * SECOND + i).is_some());
        }
    }
}
