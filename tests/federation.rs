use conduit_federation::backfill::BackfillWalk;
use conduit_federation::{
    add_default_port, append_pdu_id, authorization_header, authorization_headers, derive_event_id,
    event_id_from_hash, federation_gate, has_explicit_port, host_from_well_known, insert_pdu_id,
    key_valid_until,
    profile_response, resolve_destination, server_verify_key, signing_envelope, srv_query_name,
    strip_trailing_dots, typing_action, walk_stored_events, well_known_url, EduAction,
    IngestAction, IngestEvent, PduError, PduIngest, PduStage, Placement, ProfileField,
    TransactionResults,
};

fn s(x: &str) -> String {
    x.to_string()
}

fn key(room: &str, count: &[u8], tail: &[u8]) -> Vec<u8> {
    let mut k = room.as_bytes().to_vec();
    k.push(0xff);
    k.extend_from_slice(count);
    k.extend_from_slice(tail);
    k
}

#[test]
fn destination_with_delegation_and_srv() {
    let d = resolve_destination(
        "example.org",
        Some(s("matrix.example.org")),
        Some(s("federation.internal.")),
    );
    assert_eq!(d.url, "https://federation.internal");
    assert_eq!(d.host, Some(s("matrix.example.org")));
}

#[test]
fn destination_default_port() {
    let d = resolve_destination("example.org", None, None);
    assert_eq!(d.url, "https://example.org:8448");
    assert_eq!(d.host, None);
}

#[test]
fn destination_name_with_port() {
    let d = resolve_destination("example.org:1234", None, None);
    assert_eq!(d.url, "https://example.org:1234");
    assert_eq!(d.host, None);
}

#[test]
fn destination_well_known_without_srv() {
    let d = resolve_destination("example.org", Some(s("matrix.example.org")), None);
    assert_eq!(d.url, "https://matrix.example.org:8448");
    assert_eq!(d.host, None);
    let d = resolve_destination("example.org", Some(s("matrix.example.org:443")), None);
    assert_eq!(d.url, "https://matrix.example.org:443");
}

#[test]
fn destination_srv_without_well_known() {
    let d = resolve_destination("example.org", None, Some(s("fed.example.org.")));
    assert_eq!(d.url, "https://fed.example.org");
    assert_eq!(d.host, Some(s("example.org")));
}

#[test]
fn destination_helpers() {
    assert!(has_explicit_port("a.b:8"));
    assert!(!has_explicit_port("a.b"));
    assert_eq!(add_default_port("a.b"), "a.b:8448");
    assert_eq!(add_default_port("a.b:1"), "a.b:1");
    assert_eq!(strip_trailing_dots("a.b.."), "a.b");
    assert_eq!(strip_trailing_dots("..."), "");
    assert_eq!(strip_trailing_dots("a.b"), "a.b");
    assert_eq!(srv_query_name("matrix.example.org"), "_matrix._tcp.matrix.example.org");
    assert_eq!(well_known_url("example.org"), "https://example.org/.well-known/matrix/server");
}

#[test]
fn append_key_layout() {
    let k = append_pdu_id("!room:x", 42);
    assert_eq!(k, key("!room:x", &[0, 0, 0, 0, 0, 0, 0, 0x2a], &[]));
}

#[test]
fn insert_key_layout() {
    let k = insert_pdu_id("!room:x", 17, 0);
    assert_eq!(k, key("!room:x", &[0, 0, 0, 0, 0, 0, 0, 0x11], &[1]));
    let k = insert_pdu_id("!room:x", 17, 2);
    assert_eq!(k, key("!room:x", &[0, 0, 0, 0, 0, 0, 0, 0x11], &[1, 1, 1]));
}

#[test]
fn keys_order_as_counts() {
    let room = "!r:example.org";
    assert!(append_pdu_id(room, 5) < append_pdu_id(room, 6));
    assert!(append_pdu_id(room, 255) < append_pdu_id(room, 256));
    assert!(append_pdu_id(room, 0) < append_pdu_id(room, u64::MAX));
    assert!(append_pdu_id(room, 17) < insert_pdu_id(room, 17, 0));
    assert!(insert_pdu_id(room, 17, 0) < append_pdu_id(room, 18));
    assert!(insert_pdu_id(room, 255, 0) < append_pdu_id(room, 256));
    assert!(insert_pdu_id(room, 17, 5) < append_pdu_id(room, 18));
}

#[test]
fn repeated_inserts_do_not_alias() {
    let room = "!r:example.org";
    let first = insert_pdu_id(room, 17, 0);
    let second = insert_pdu_id(room, 17, 1);
    assert_ne!(first, second);
    assert!(append_pdu_id(room, 17) < first);
    assert!(first < second);
    assert!(second < append_pdu_id(room, 18));
}

fn run_to_placement(is_state: bool) -> PduIngest {
    let mut p = PduIngest::new(s("!room:x"), s("$ev"), is_state);
    assert!(matches!(p.action(), IngestAction::CheckRoom));
    p.advance(IngestEvent::RoomKnown(true));
    assert!(matches!(p.action(), IngestAction::FetchRemoteState));
    p.advance(IngestEvent::RemoteState(Ok(())));
    p
}

#[test]
fn non_state_pdu_append() {
    let mut p = run_to_placement(false);
    assert!(matches!(p.action(), IngestAction::CheckMembership));
    p.advance(IngestEvent::SenderJoined(true));
    assert!(matches!(p.action(), IngestAction::FindPlacement));
    p.advance(IngestEvent::Placed(Placement::Append));
    assert!(matches!(p.action(), IngestAction::AllocateCount));
    p.advance(IngestEvent::FreshCount(42));
    match p.action() {
        IngestAction::Store { count, pdu_id } => {
            assert_eq!(count, 42);
            assert_eq!(pdu_id, key("!room:x", &[0, 0, 0, 0, 0, 0, 0, 0x2a], &[]));
        }
        _ => panic!("expected a store action"),
    }
    p.stored();
    assert!(matches!(p.action(), IngestAction::Record(Ok(()))));
}

#[test]
fn non_state_pdu_insert() {
    let mut p = run_to_placement(false);
    p.advance(IngestEvent::SenderJoined(true));
    p.advance(IngestEvent::Placed(Placement::Insert { old_count: 17, prior: 0 }));
    match p.action() {
        IngestAction::Store { count, pdu_id } => {
            assert_eq!(count, 17);
            assert_eq!(pdu_id, key("!room:x", &[0, 0, 0, 0, 0, 0, 0, 0x11], &[1]));
        }
        _ => panic!("expected a store action"),
    }
}

#[test]
fn second_insert_after_same_count_gets_longer_suffix() {
    let mut p = run_to_placement(false);
    p.advance(IngestEvent::SenderJoined(true));
    p.advance(IngestEvent::Placed(Placement::Insert { old_count: 17, prior: 1 }));
    match p.action() {
        IngestAction::Store { count, pdu_id } => {
            assert_eq!(count, 17);
            assert_eq!(pdu_id, key("!room:x", &[0, 0, 0, 0, 0, 0, 0, 0x11], &[1, 1]));
        }
        _ => panic!("expected a store action"),
    }
}

#[test]
fn unknown_room_is_rejected() {
    let mut p = PduIngest::new(s("!room:x"), s("$ev"), false);
    p.advance(IngestEvent::RoomKnown(false));
    match p.action() {
        IngestAction::Record(Err(e)) => {
            assert!(matches!(e, PduError::RoomUnknown));
            assert_eq!(e.message(), "Room is unknown to this server");
        }
        _ => panic!("expected a rejection"),
    }
}

#[test]
fn sender_not_joined_is_rejected() {
    let mut p = run_to_placement(false);
    p.advance(IngestEvent::SenderJoined(false));
    match p.action() {
        IngestAction::Record(Err(e)) => assert_eq!(e.message(), "User is not in this room"),
        _ => panic!("expected a rejection"),
    }
}

#[test]
fn remote_state_failure_is_recorded() {
    let mut p = PduIngest::new(s("!room:x"), s("$ev"), true);
    p.advance(IngestEvent::RoomKnown(true));
    p.advance(IngestEvent::RemoteState(Err(s("Host not in room."))));
    match p.action() {
        IngestAction::Record(Err(e)) => assert_eq!(e.message(), "Host not in room."),
        _ => panic!("expected a rejection"),
    }
}

#[test]
fn state_pdu_not_in_resolved_set() {
    let mut p = run_to_placement(true);
    assert!(matches!(p.action(), IngestAction::ResolveState));
    p.advance(IngestEvent::Resolution(Ok(vec![s("$other")])));
    match p.action() {
        IngestAction::Record(Err(e)) => {
            assert!(matches!(e, PduError::NotInResolvedSet));
            assert_eq!(e.message(), "This event failed authentication, not found in resolved set");
        }
        _ => panic!("expected a rejection"),
    }
}

#[test]
fn state_pdu_in_resolved_set_is_placed() {
    let mut p = run_to_placement(true);
    p.advance(IngestEvent::Resolution(Ok(vec![s("$other"), s("$ev")])));
    assert!(matches!(p.stage, PduStage::FindPlacement));
    p.advance(IngestEvent::Placed(Placement::Unknown));
    match p.action() {
        IngestAction::Record(Err(e)) => assert_eq!(e.message(), "unsequenceable event"),
        _ => panic!("expected a rejection"),
    }
}

#[test]
fn resolver_error_is_recorded() {
    let mut p = run_to_placement(true);
    p.advance(IngestEvent::Resolution(Err(s("auth chain missing"))));
    match p.action() {
        IngestAction::Record(Err(e)) => assert_eq!(e.message(), "auth chain missing"),
        _ => panic!("expected a rejection"),
    }
}

#[test]
fn empty_transaction_has_empty_result() {
    let r = TransactionResults::new();
    assert!(r.is_empty());
}

#[test]
fn one_entry_per_event_id() {
    let mut r = TransactionResults::new();
    r.record(s("$a"), Err(PduError::NotJoined));
    r.record(s("$b"), Ok(()));
    r.record(s("$a"), Ok(()));
    assert!(!r.is_empty());
    assert!(matches!(r.get(&s("$a")), Some(Ok(()))));
    assert!(matches!(r.get(&s("$b")), Some(Ok(()))));
    assert!(r.get(&s("$c")).is_none());
    let entries = r.entries();
    assert_eq!(entries.len(), 2);
    assert_eq!(entries[0].0, "$a");
    assert!(matches!(entries[0].1, Ok(())));
    assert_eq!(entries[1].0, "$b");
    assert!(matches!(entries[1].1, Ok(())));
}

fn chain() -> Vec<(String, Vec<String>)> {
    vec![
        (s("a"), vec![]),
        (s("b"), vec![s("a")]),
        (s("c"), vec![s("b")]),
        (s("d"), vec![s("c")]),
    ]
}

#[test]
fn backfill_bounded_walk() {
    let r = walk_stored_events(&chain(), vec![s("b")], vec![s("d")], 10);
    assert_eq!(r, vec![s("d"), s("c")]);
}

#[test]
fn backfill_limit_zero() {
    let r = walk_stored_events(&chain(), vec![], vec![s("d")], 0);
    assert!(r.is_empty());
}

#[test]
fn backfill_respects_limit_and_skips_unknown() {
    let r = walk_stored_events(&chain(), vec![], vec![s("x"), s("d")], 2);
    assert_eq!(r, vec![s("d"), s("c")]);
    let r = walk_stored_events(&chain(), vec![], vec![s("d")], 10);
    assert_eq!(r, vec![s("d"), s("c"), s("b"), s("a")]);
}

#[test]
fn backfill_state_machine_steps() {
    let mut w = BackfillWalk::new(vec![s("b")], vec![s("d")], 5);
    assert_eq!(w.next_lookup(), Some(s("d")));
    w.record(Some(vec![s("b")]));
    assert_eq!(w.next_lookup(), Some(s("b")));
    w.record(Some(vec![s("a")]));
    assert!(w.is_done());
    assert_eq!(w.events, vec![s("d")]);
}

#[test]
fn envelope_without_body() {
    let e = signing_envelope("GET", "/_matrix/federation/v1/version", "a.org", "b.org", &vec![]);
    assert!(e.content.is_none());
    assert_eq!(e.member_names(), vec![s("destination"), s("method"), s("origin"), s("uri")]);
}

#[test]
fn envelope_with_body() {
    let body = b"{\"x\":1}".to_vec();
    let e = signing_envelope("PUT", "/_matrix/federation/v1/send/1", "a.org", "b.org", &body);
    assert_eq!(e.content, Some(body));
    assert_eq!(e.destination, "b.org");
    assert_eq!(
        e.member_names(),
        vec![s("content"), s("destination"), s("method"), s("origin"), s("uri")]
    );
}

#[test]
fn authorization_header_text() {
    assert_eq!(
        authorization_header("a.org", "ed25519:1", "c2ln"),
        "X-Matrix origin=a.org,key=\"ed25519:1\",sig=\"c2ln\""
    );
}

#[test]
fn authorization_headers_are_deterministic() {
    let sigs = vec![(s("ed25519:1"), s("AAA")), (s("ed25519:2"), s("BBB"))];
    let h1 = authorization_headers("a.org", &sigs);
    let h2 = authorization_headers("a.org", &sigs.clone());
    assert_eq!(h1, h2);
    assert_eq!(h1.len(), 2);
    assert_eq!(h1[1], "X-Matrix origin=a.org,key=\"ed25519:2\",sig=\"BBB\"");
}

const PDU: &str = r#"{"auth_events":[],"content":{"body":"hi","msgtype":"m.text"},"depth":3,"hashes":{"sha256":"abc"},"origin":"a.org","origin_server_ts":1000,"prev_events":["$p"],"room_id":"!r:a.org","sender":"@u:a.org","type":"m.room.message"}"#;

#[test]
fn event_id_is_dollar_and_reference_hash() {
    let id = derive_event_id(PDU).expect("hash");
    assert!(id.starts_with('$'));
    assert_eq!(id.len(), 44);
    assert_eq!(derive_event_id(PDU), Some(id.clone()));
    let other = PDU.replace("\"depth\":3", "\"depth\":4");
    assert_ne!(derive_event_id(&other), Some(id));
}

#[test]
fn canonically_equal_texts_get_equal_ids() {
    let id = derive_event_id(PDU).expect("hash");
    let relaid = r#"{ "type": "m.room.message", "sender": "@u:a.org", "room_id": "!r:a.org",
        "prev_events": ["$p"], "origin_server_ts": 1000, "origin": "a.org",
        "hashes": {"sha256": "abc"}, "depth": 3,
        "content": {"msgtype": "m.text", "body": "h\u0069"}, "auth_events": [] }"#;
    assert_eq!(derive_event_id(relaid), Some(id));
}

#[test]
fn event_id_of_non_object_is_none() {
    assert_eq!(derive_event_id("[1,2]"), None);
    assert_eq!(derive_event_id("not json"), None);
}

#[test]
fn event_id_from_hash_prefixes_dollar() {
    assert_eq!(event_id_from_hash("abc"), "$abc");
}

#[test]
fn verify_key_is_unpadded_base64() {
    let k = server_verify_key("abc", &[0, 1, 2, 3]);
    assert_eq!(k.key_id, "ed25519:abc");
    assert_eq!(k.key, "AAECAw");
    let k = server_verify_key("1", &[7u8; 32]);
    assert_eq!(k.key.len(), 43);
    assert!(!k.key.ends_with('='));
}

#[test]
fn key_document_valid_for_two_minutes() {
    assert_eq!(key_valid_until(1_000), 121_000);
}

#[test]
fn typing_edus() {
    match typing_action("m.typing", Some(true), Some(s("@u:a")), Some(s("!r:a")), 10) {
        EduAction::TypingStart { user_id, room_id, expires_at } => {
            assert_eq!(user_id, "@u:a");
            assert_eq!(room_id, "!r:a");
            assert_eq!(expires_at, 3010);
        }
        _ => panic!("expected typing start"),
    }
    assert!(matches!(
        typing_action("m.typing", Some(false), Some(s("@u:a")), Some(s("!r:a")), 10),
        EduAction::TypingStop { .. }
    ));
    assert!(matches!(
        typing_action("m.typing", Some(true), None, Some(s("!r:a")), 10),
        EduAction::Ignore
    ));
    assert!(matches!(
        typing_action("m.typing", None, Some(s("@u:a")), Some(s("!r:a")), 10),
        EduAction::Ignore
    ));
    assert!(matches!(
        typing_action("m.presence", Some(true), Some(s("@u:a")), Some(s("!r:a")), 10),
        EduAction::Ignore
    ));
}

#[test]
fn federation_switch() {
    assert_eq!(federation_gate(true), Ok(()));
    assert_eq!(federation_gate(false), Err(s("Federation is disabled.")));
}

#[test]
fn profile_fields() {
    let r = profile_response(Some(ProfileField::DisplayName), Some(s("Al")), Some(s("mxc://x")));
    assert_eq!(r.displayname, Some(s("Al")));
    assert_eq!(r.avatar_url, None);
    let r = profile_response(Some(ProfileField::AvatarUrl), Some(s("Al")), Some(s("mxc://x")));
    assert_eq!(r.displayname, None);
    assert_eq!(r.avatar_url, Some(s("mxc://x")));
    let r = profile_response(None, Some(s("Al")), Some(s("mxc://x")));
    assert_eq!(r.displayname, Some(s("Al")));
    assert_eq!(r.avatar_url, Some(s("mxc://x")));
}

#[test]
fn well_known_delegation() {
    let body = s(r#"{"m.server":"matrix.example.org:443"}"#);
    assert_eq!(host_from_well_known("example.org", Some(body)), "matrix.example.org:443");
    assert_eq!(host_from_well_known("example.org", None), "example.org");
    assert_eq!(host_from_well_known("example.org", Some(s("<html>"))), "example.org");
    assert_eq!(host_from_well_known("example.org", Some(s(r#"{"m.server":7}"#))), "example.org");
}
