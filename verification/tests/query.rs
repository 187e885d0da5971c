use minerstatus::cache::Cache;
use minerstatus::query::{
    cache_key, cached_any, cached_status, connection_error, no_status_detected, settle_probe,
    Edition, ProbeRace, RaceStep,
};
use minerstatus::status::{
    build_bedrock_response, build_java_response, BedrockStatus, JavaStatus, StatusResponse,
};

const SECOND: u128 = 1_000_000_000;

fn java_status() -> JavaStatus {
    JavaStatus {
        online: true,
        players_online: 3,
        players_max: 20,
        latency_bits: 42.5f64.to_bits(),
        version: "1.20.1".to_string(),
        motd: "§aA Minecraft Server".to_string(),
        favicon: Some("data:image/png;base64,aGk=".to_string()),
    }
}

fn bedrock_status() -> BedrockStatus {
    BedrockStatus {
        online: true,
        players_online: 7,
        players_max: 4_000_000_000,
        latency_bits: 8.0f64.to_bits(),
        version: "1.21.0".to_string(),
        motd: "§bBedrock".to_string(),
    }
}

fn java_response() -> StatusResponse {
    build_java_response(&java_status())
}

#[test]
fn builds_java_response() {
    let r = java_response();
    assert!(r.online);
    assert_eq!(r.players.online, 3);
    assert_eq!(r.players.max, 20);
    assert_eq!(f64::from_bits(r.delay_bits), 42.5);
    assert_eq!(r.version, "1.20.1");
    assert_eq!(r.motd.plain, "A Minecraft Server");
    assert_eq!(r.motd.minecraft, "§aA Minecraft Server");
    assert_eq!(r.icon.as_deref(), Some("data:image/png;base64,aGk="));
}

#[test]
fn builds_bedrock_response_without_icon() {
    let r = build_bedrock_response(&bedrock_status());
    assert_eq!(r.players.online, 7);
    assert_eq!(r.players.max, 4_000_000_000i64);
    assert_eq!(r.motd.ansi, "\x1b[96mBedrock");
    assert!(r.icon.is_none());
}

#[test]
fn keys_and_messages() {
    assert_eq!(cache_key(Edition::Java, "play.example.com"), "java:play.example.com");
    assert_eq!(cache_key(Edition::Bedrock, "h:19132"), "bedrock:h:19132");
    assert_eq!(
        connection_error(Edition::Java, "play.example.com", "timed out").0,
        "Failed to connect to Java server at play.example.com: timed out"
    );
    assert_eq!(
        connection_error(Edition::Bedrock, "h", "refused").0,
        "Failed to connect to Bedrock server at h: refused"
    );
    assert_eq!(no_status_detected().0, "No server status detected. Is the server offline?");
}

#[test]
fn probe_success_is_cached_when_asked() {
    let mut cache = Cache::new(60 * SECOND, 10);
    let now = 100 * SECOND;
    let r = settle_probe(&mut cache, Edition::Java, "h", true, Ok(java_response()), now).ok().unwrap();
    assert_eq!(r.version, "1.20.1");
    let hit = cached_status(&cache, Edition::Java, "h", true, now + SECOND).unwrap();
    assert_eq!(f64::from_bits(hit.delay_bits), 42.5);
    assert!(cached_status(&cache, Edition::Java, "h", false, now + SECOND).is_none());
    assert!(cached_status(&cache, Edition::Bedrock, "h", true, now + SECOND).is_none());
}

#[test]
fn probe_success_is_not_cached_without_cache() {
    let mut cache = Cache::new(60 * SECOND, 10);
    let now = 100 * SECOND;
    assert!(settle_probe(&mut cache, Edition::Java, "h", false, Ok(java_response()), now).is_ok());
    assert_eq!(cache.len(), 0);
}

#[test]
fn probe_failure_becomes_connection_error() {
    let mut cache = Cache::new(60 * SECOND, 10);
    let r = settle_probe(&mut cache, Edition::Bedrock, "h", true, Err("no reply".to_string()), 0);
    match r {
        Err(e) => assert_eq!(e.0, "Failed to connect to Bedrock server at h: no reply"),
        Ok(_) => panic!("expected an error"),
    }
    assert_eq!(cache.len(), 0);
}

#[test]
fn auto_detect_prefers_cached_java() {
    let mut cache = Cache::new(60 * SECOND, 10);
    let now = 100 * SECOND;
    let bedrock = build_bedrock_response(&bedrock_status());
    let _ = settle_probe(&mut cache, Edition::Bedrock, "h", true, Ok(bedrock), now);
    assert_eq!(cached_any(&cache, "h", true, now).unwrap().version, "1.21.0");
    let _ = settle_probe(&mut cache, Edition::Java, "h", true, Ok(java_response()), now);
    assert_eq!(cached_any(&cache, "h", true, now).unwrap().version, "1.20.1");
    assert!(cached_any(&cache, "h", false, now).is_none());
}

#[test]
fn race_fails_only_after_both_probes_fail() {
    let mut cache = Cache::new(60 * SECOND, 10);
    let mut race = ProbeRace::new();
    assert!(matches!(race.finish(Edition::Java, None, &mut cache, "h", true, 0), RaceStep::Waiting));
    match race.finish(Edition::Bedrock, None, &mut cache, "h", true, 0) {
        RaceStep::Failed(e) => assert_eq!(e.0, "No server status detected. Is the server offline?"),
        _ => panic!("expected a failure"),
    }
}

#[test]
fn race_first_success_wins_and_is_cached_under_its_edition() {
    let mut cache = Cache::new(60 * SECOND, 10);
    let mut race = ProbeRace::new();
    let now = 100 * SECOND;
    assert!(matches!(race.finish(Edition::Java, None, &mut cache, "h", true, now), RaceStep::Waiting));
    let bedrock = build_bedrock_response(&bedrock_status());
    match race.finish(Edition::Bedrock, Some(bedrock), &mut cache, "h", true, now) {
        RaceStep::Won(r) => assert_eq!(r.version, "1.21.0"),
        _ => panic!("expected a win"),
    }
    assert!(cached_status(&cache, Edition::Bedrock, "h", true, now).is_some());
    assert!(cached_status(&cache, Edition::Java, "h", true, now).is_none());
}
