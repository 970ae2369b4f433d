use portal::control::zero_conf::{new_server_id, server_id_from, zero_conf_reply, SERVER_ID_CHARS, SERVER_ID_LENGTH, ZERO_CONF_REQUEST};

#[test]
fn server_id_has_ten_known_characters() {
    for _ in 0..20 {
        let id = new_server_id();
        assert_eq!(id.chars().count(), SERVER_ID_LENGTH);
        assert!(id.chars().all(|c| SERVER_ID_CHARS.contains(c)));
    }
}

#[test]
fn server_ids_differ() {
    let ids: Vec<String> = (0..8).map(|_| new_server_id()).collect();
    assert!(ids.iter().any(|id| id != &ids[0]));
}

#[test]
fn server_id_from_picks() {
    assert_eq!(server_id_from(&[0, 25, 26, 51, 52, 61]), "AZaz09");
    assert_eq!(server_id_from(&[]), "");
}

#[test]
fn reply_to_discovery_request() {
    let r = zero_conf_reply(ZERO_CONF_REQUEST.as_bytes(), Some("Finish Line"), "Ab3dE6gH9j", 4488);
    assert_eq!(r, Some(String::from("[Finish Line|Ab3dE6gH9j|4488]")));
}

#[test]
fn reply_without_a_name() {
    let r = zero_conf_reply(b"[DISCOVER_CHRONO_SERVER_REQUEST]", None, "xyz", 5001);
    assert_eq!(r, Some(String::from("[Unknown|xyz|5001]")));
}

#[test]
fn other_requests_get_no_reply() {
    assert_eq!(zero_conf_reply(b"[DISCOVER_CHRONO_SERVER_REQUEST", Some("a"), "b", 1), None);
    assert_eq!(zero_conf_reply(b"hello", Some("a"), "b", 1), None);
    assert_eq!(zero_conf_reply(&[0xff, 0xfe], Some("a"), "b", 1), None);
    assert_eq!(zero_conf_reply(b"", None, "b", 1), None);
}
