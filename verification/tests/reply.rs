use minerstatus::query::Edition;
use minerstatus::reply::{
    icon_payload, icon_reply_from_decoded, java_icon_reply, plan_request, status_reply,
    validation_detail, Endpoint, IconReply, Plan, QueryParams, StatusReply,
};
use minerstatus::status::{ErrorResponse, MotdResponse, PlayersResponse, QueryError, StatusResponse};

fn with_icon(icon: Option<&str>) -> StatusResponse {
    StatusResponse {
        online: true,
        players: PlayersResponse { online: 0, max: 0 },
        delay_bits: 0,
        version: String::new(),
        motd: MotdResponse {
            plain: String::new(),
            html: String::new(),
            minecraft: String::new(),
            ansi: String::new(),
        },
        icon: icon.map(|s| s.to_string()),
    }
}

fn not_found(r: IconReply) -> String {
    match r {
        IconReply::NotFound(ErrorResponse { error }) => error,
        IconReply::Png(_) => panic!("expected 404"),
    }
}

#[test]
fn cache_parameter_defaults_to_true() {
    let p = QueryParams { ip: "h".to_string(), cache: None };
    assert!(p.use_cache());
    assert!(!QueryParams { ip: "h".to_string(), cache: Some(false) }.use_cache());
    assert!(QueryParams { ip: "h".to_string(), cache: Some(true) }.use_cache());
}

#[test]
fn plans() {
    match plan_request(Endpoint::Java, "play.example.com/icon") {
        Plan::Icon(h) => assert_eq!(h, "play.example.com"),
        _ => panic!(),
    }
    match plan_request(Endpoint::Auto, "play.example.com/icon") {
        Plan::Icon(h) => assert_eq!(h, "play.example.com"),
        _ => panic!(),
    }
    match plan_request(Endpoint::Java, "play.example.com") {
        Plan::Status(Edition::Java, h) => assert_eq!(h, "play.example.com"),
        _ => panic!(),
    }
    match plan_request(Endpoint::Bedrock, "h/icon") {
        Plan::Status(Edition::Bedrock, h) => assert_eq!(h, "h/icon"),
        _ => panic!(),
    }
    match plan_request(Endpoint::Auto, "icon") {
        Plan::AutoStatus(h) => assert_eq!(h, "icon"),
        _ => panic!(),
    }
    match plan_request(Endpoint::Java, "/icon") {
        Plan::Icon(h) => assert_eq!(h, ""),
        _ => panic!(),
    }
}

#[test]
fn status_replies() {
    match status_reply(Err(QueryError("boom".to_string()))) {
        StatusReply::Error(e) => assert_eq!(e.error, "boom"),
        _ => panic!(),
    }
    match status_reply(Ok(with_icon(None))) {
        StatusReply::Status(s) => assert!(s.online),
        _ => panic!(),
    }
}

#[test]
fn icon_payload_takes_last_piece_trimmed() {
    assert_eq!(icon_payload("data:image/png;base64,aGk="), "aGk=");
    assert_eq!(icon_payload("a,b, c \n"), "c");
    assert_eq!(icon_payload("  plain  "), "plain");
    assert_eq!(icon_payload("ends,"), "");
}

#[test]
fn icon_decodes_base64() {
    match java_icon_reply(Ok(with_icon(Some("data:image/png;base64,aGVsbG8=")))) {
        IconReply::Png(bytes) => assert_eq!(bytes, b"hello".to_vec()),
        _ => panic!("expected png"),
    }
    match java_icon_reply(Ok(with_icon(Some(" aGk= ")))) {
        IconReply::Png(bytes) => assert_eq!(bytes, b"hi".to_vec()),
        _ => panic!("expected png"),
    }
}

#[test]
fn icon_errors() {
    assert_eq!(not_found(java_icon_reply(Err(QueryError("down".to_string())))), "down");
    assert_eq!(not_found(java_icon_reply(Ok(with_icon(None)))), "Server has no icon");
    assert_eq!(
        not_found(java_icon_reply(Ok(with_icon(Some("data:image/png;base64,!!!"))))),
        "Invalid icon data"
    );
    assert_eq!(not_found(icon_reply_from_decoded(None)), "Invalid icon data");
    match icon_reply_from_decoded(Some(vec![1, 2])) {
        IconReply::Png(b) => assert_eq!(b, vec![1, 2]),
        _ => panic!(),
    }
}

#[test]
fn validation_details() {
    let d = validation_detail(true, "Failed to deserialize query string: missing field `ip`");
    assert_eq!(d.kind, "missing");
    assert_eq!(d.loc, vec!["query".to_string(), "ip".to_string()]);
    assert_eq!(d.msg, "Failed to deserialize query string: missing field `ip`");
    let d = validation_detail(false, "other");
    assert_eq!(d.kind, "invalid_request");
    assert_eq!(d.loc, vec!["query".to_string()]);
    assert_eq!(d.msg, "other");
}
