use appkit::matrix::{
    base_url, env_opt, env_req, extract_messages, job_id, send_text_url, list_subscribers, next_since, ping_reply,
    ping_trigger, since_choice, since_temp_path, JoinedRoom, RoomEvent, Subscribers, WindmillApi,
};

const BOT: &str = "@bot:example.org";

fn message(sender: &str, body: &str) -> RoomEvent {
    RoomEvent { event_type: Some("m.room.message".into()), sender: Some(sender.into()), body: Some(body.into()) }
}

fn room(id: &str, events: Option<Vec<RoomEvent>>) -> JoinedRoom {
    JoinedRoom { room_id: id.into(), events }
}

#[test]
fn adds_room_id_and_body() {
    let rooms = vec![room("!a:example.org", Some(vec![message("@u:example.org", "hi")]))];
    let out = extract_messages(&rooms, BOT);
    assert_eq!(out.len(), 1);
    assert_eq!(out[0].room_id, "!a:example.org");
    assert_eq!(out[0].body, "hi");
    assert_eq!((out[0].room, out[0].event), (0, 0));
}

#[test]
fn ignores_messages_from_the_bot() {
    let rooms = vec![room("!a:example.org", Some(vec![message(BOT, "Pong! 🏓"), message("@u:example.org", "!ping")]))];
    let out = extract_messages(&rooms, BOT);
    assert_eq!(out.len(), 1);
    assert_eq!(out[0].event, 1);
    assert_eq!(out[0].body, "!ping");
}

#[test]
fn ignores_other_event_types() {
    let other = |t: &str| RoomEvent { event_type: Some(t.into()), sender: Some("@u:example.org".into()), body: None };
    let rooms = vec![room("!a:example.org", Some(vec![other("m.reaction"), other("m.room.member")]))];
    assert!(extract_messages(&rooms, BOT).is_empty());
}

#[test]
fn missing_body_becomes_empty_string() {
    let ev = RoomEvent { event_type: Some("m.room.message".into()), sender: Some("@u:example.org".into()), body: None };
    let out = extract_messages(&vec![room("!a:example.org", Some(vec![ev]))], BOT);
    assert_eq!(out[0].body, "");
}

#[test]
fn collects_from_every_joined_room() {
    let rooms = vec![
        room("!a:example.org", Some(vec![message("@u:example.org", "one")])),
        room("!b:example.org", Some(vec![message("@u:example.org", "two")])),
        room("!c:example.org", None),
    ];
    let mut ids: Vec<String> = extract_messages(&rooms, BOT).into_iter().map(|m| m.room_id).collect();
    ids.sort();
    assert_eq!(ids, ["!a:example.org", "!b:example.org"]);
}

#[test]
fn empty_sync_yields_nothing() {
    assert!(extract_messages(&vec![], BOT).is_empty());
}

#[test]
fn file_wins_over_seed() {
    assert_eq!(since_choice(Some("stored\n".into()), Some("seed".into())).as_deref(), Some("stored"));
}

#[test]
fn seed_used_when_file_missing() {
    assert_eq!(since_choice(None, Some("seed".into())).as_deref(), Some("seed"));
}

#[test]
fn seed_used_when_file_blank() {
    assert_eq!(since_choice(Some("  \n".into()), Some("seed".into())).as_deref(), Some("seed"));
}

#[test]
fn nothing_when_no_file_and_no_seed() {
    assert_eq!(since_choice(None, None), None);
}

#[test]
fn since_is_saved_only_when_it_moves() {
    assert_eq!(next_since(&None, Some("s1".into())).as_deref(), Some("s1"));
    assert_eq!(next_since(&Some("s1".into()), Some("s1".into())), None);
    assert_eq!(next_since(&Some("s1".into()), None), None);
    assert_eq!(since_temp_path("/var/since.token"), "/var/since.token.tmp");
}

#[test]
fn ping_trigger_and_reply() {
    let t = ping_trigger(None);
    assert_eq!(t.as_deref(), Some("!ping"));
    assert_eq!(ping_reply(&t, "!ping please").as_deref(), Some("Pong! 🏓"));
    assert_eq!(ping_reply(&t, "hello !ping"), None);
    assert_eq!(ping_trigger(Some("  ".into())), None);
    assert_eq!(ping_trigger(Some(" hey ".into())).as_deref(), Some("!hey"));
    assert_eq!(ping_reply(&None, "!ping"), None);
}

#[test]
fn environment_values() {
    assert_eq!(env_opt(Some("  v  ".into())).as_deref(), Some("v"));
    assert_eq!(env_opt(Some("   ".into())), None);
    assert_eq!(env_req("WM_TOKEN", Some("t".into())).unwrap(), "t");
    assert_eq!(env_req("WM_TOKEN", None).unwrap_err(), "missing env var WM_TOKEN");
    assert_eq!(base_url("http://windmill:8000//"), "http://windmill:8000");
}

#[test]
fn windmill_addresses_and_subscribers() {
    let wm = WindmillApi { base: "http://w".into(), workspace: "tools".into() };
    assert_eq!(wm.url("scripts/list"), "http://w/api/w/tools/scripts/list");
    assert_eq!(wm.get_variable_url("f/a"), "http://w/api/w/tools/variables/get_value/f/a");
    assert_eq!(wm.set_variable_url("f/a"), "http://w/api/w/tools/variables/update/f/a");
    assert_eq!(wm.run_async_url("f/s"), "http://w/api/w/tools/jobs/run/p/f/s");
    let listed = vec![
        Some("f/matrix_bot/subscribers/echo".to_string()),
        None,
        Some("f/matrix_bot/other".to_string()),
        Some("f/matrix_bot/subscribers/log".to_string()),
    ];
    assert_eq!(
        list_subscribers(listed),
        vec!["f/matrix_bot/subscribers/echo".to_string(), "f/matrix_bot/subscribers/log".to_string()]
    );
    assert_eq!(job_id(" \"0190-abc\"\n"), "0190-abc");
}

#[test]
fn subscriber_list_refreshes_once_a_minute() {
    let mut s = Subscribers::new();
    assert!(s.is_stale(0));
    s.refreshed(Some(vec!["a".into()]), 1_000);
    assert!(!s.is_stale(61_000));
    assert!(s.is_stale(61_001));
    s.refreshed(None, 70_000);
    assert_eq!(s.list(), vec!["a".to_string()]);
    assert!(s.is_stale(70_000));
}

#[test]
fn reply_url_has_a_fresh_uuid_transaction() {
    let prefix = "https://hs.example/_matrix/client/v3/rooms/!r:hs/send/m.room.message/";
    let a = send_text_url("https://hs.example", "!r:hs");
    let b = send_text_url("https://hs.example", "!r:hs");
    for u in [&a, &b] {
        assert!(u.starts_with(prefix));
        let txn: Vec<char> = u[prefix.len()..].chars().collect();
        assert_eq!(txn.len(), 36);
        for (i, c) in txn.iter().enumerate() {
            if i == 8 || i == 13 || i == 18 || i == 23 {
                assert_eq!(*c, '-');
            } else {
                assert!(c.is_ascii_hexdigit() && !c.is_ascii_uppercase());
            }
        }
    }
    assert_ne!(a, b);
}
