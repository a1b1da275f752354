use fun_together::registry::Registry;
use fun_together::route::{
    classify_path, header_has_token, info_response, should_upgrade, str_eq_ignore_ascii_case,
    ClientConfig,
};

#[test]
fn four_byte_segment_connects() {
    assert_eq!(classify_path("/ABCD"), ClientConfig::Connect("ABCD".to_string()));
    assert_eq!(classify_path("/abcd"), ClientConfig::Connect("abcd".to_string()));
}

#[test]
fn create_segment_creates() {
    assert_eq!(classify_path("/CREATE"), ClientConfig::Create);
}

#[test]
fn other_paths_are_invalid() {
    assert_eq!(classify_path(""), ClientConfig::Invalid);
    assert_eq!(classify_path("ABCD"), ClientConfig::Invalid);
    assert_eq!(classify_path("/"), ClientConfig::Invalid);
    assert_eq!(classify_path("/ABC"), ClientConfig::Invalid);
    assert_eq!(classify_path("/TOOLONG"), ClientConfig::Invalid);
    assert_eq!(classify_path("/ABCD/"), ClientConfig::Invalid);
    assert_eq!(classify_path("/a/bc"), ClientConfig::Invalid);
    assert_eq!(classify_path("/create"), ClientConfig::Invalid);
}

#[test]
fn ascii_case_insensitive_equality() {
    assert!(str_eq_ignore_ascii_case("WebSocket", "websocket"));
    assert!(str_eq_ignore_ascii_case("UPGRADE", "upgrade"));
    assert!(!str_eq_ignore_ascii_case("websockets", "websocket"));
    assert!(!str_eq_ignore_ascii_case("websocket", "websockez"));
}

#[test]
fn connection_header_token_search() {
    assert!(header_has_token("Upgrade", "Upgrade"));
    assert!(header_has_token("keep-alive, Upgrade", "Upgrade"));
    assert!(header_has_token("keep-alive,upgrade", "Upgrade"));
    assert!(header_has_token("UPGRADE keep-alive", "Upgrade"));
    assert!(!header_has_token("keep-alive", "Upgrade"));
    assert!(!header_has_token("Upgraded", "Upgrade"));
    assert!(!header_has_token("", "Upgrade"));
}

#[test]
fn upgrade_needs_every_condition() {
    let cfg = ClientConfig::Create;
    let conn = "keep-alive, Upgrade".to_string();
    let upg = "websocket".to_string();
    let ver = "13".to_string();
    assert!(should_upgrade(&cfg, true, true, Some(&conn), Some(&upg), Some(&ver), true));
    assert!(!should_upgrade(&ClientConfig::Invalid, true, true, Some(&conn), Some(&upg), Some(&ver), true));
    assert!(!should_upgrade(&cfg, false, true, Some(&conn), Some(&upg), Some(&ver), true));
    assert!(!should_upgrade(&cfg, true, false, Some(&conn), Some(&upg), Some(&ver), true));
    assert!(!should_upgrade(&cfg, true, true, None, Some(&upg), Some(&ver), true));
    assert!(!should_upgrade(&cfg, true, true, Some(&conn), None, Some(&ver), true));
    let twelve = "12".to_string();
    assert!(!should_upgrade(&cfg, true, true, Some(&conn), Some(&upg), Some(&twelve), true));
    assert!(!should_upgrade(&cfg, true, true, Some(&conn), Some(&upg), Some(&ver), false));
    let plain = "close".to_string();
    assert!(!should_upgrade(&cfg, true, true, Some(&plain), Some(&upg), Some(&ver), true));
}

#[test]
fn room_info_answers_name_or_not_found() {
    let mut reg = Registry::new();
    reg.reserve("ABCD".to_string(), "Trivia".to_string(), 1);
    let (status, body) = info_response(&ClientConfig::Connect("ABCD".to_string()), &reg);
    assert_eq!(status, 200);
    assert_eq!(body, "Trivia".to_string());
    let (status, body) = info_response(&ClientConfig::Connect("ZZZZ".to_string()), &reg);
    assert_eq!(status, 404);
    assert_eq!(body, "Game not found".to_string());
    let (status, _) = info_response(&ClientConfig::Invalid, &reg);
    assert_eq!(status, 400);
    let (status, body) = info_response(&ClientConfig::Create, &reg);
    assert_eq!(status, 200);
    assert_eq!(body, "Provide a valid token.".to_string());
}
