use rosa::api::{
    message_params, message_query, newest_message_id, parse_messages, parse_players,
    players_cache_fresh, ChatLine,
};

fn line(id: &str) -> ChatLine {
    ChatLine { id: id.to_string(), user: String::new(), text: String::new(), color: String::new() }
}

#[test]
fn messages_come_oldest_first() {
    let raw = r##"[{"id":"3","from_user":"carol","message":"third","color":"#ff0000"},
                   {"id":"2","from_user":"bob","message":"second","color":"lime"},
                   {"id":"1","from_user":"alice","message":"first","color":"white"}]"##;
    let lines = parse_messages(raw);
    assert_eq!(lines.len(), 3);
    assert_eq!(lines[0].id, "1");
    assert_eq!(lines[0].user, "alice");
    assert_eq!(lines[0].text, "first");
    assert_eq!(lines[0].color, "white");
    assert_eq!(lines[2].id, "3");
    assert_eq!(lines[2].user, "carol");
    assert_eq!(lines[2].color, "#ff0000");
}

#[test]
fn message_fields_that_are_not_strings_read_as_empty() {
    let raw = r#"[{"id":7,"from_user":null,"message":["x"],"extra":"y"}]"#;
    let lines = parse_messages(raw);
    assert_eq!(lines.len(), 1);
    assert_eq!(lines[0].id, "");
    assert_eq!(lines[0].user, "");
    assert_eq!(lines[0].text, "");
    assert_eq!(lines[0].color, "");
}

#[test]
fn message_text_with_escapes_is_decoded() {
    let raw = r#"[{"id":"1","from_user":"\u3042","message":"a \"quoted\"\nline"}]"#;
    let lines = parse_messages(raw);
    assert_eq!(lines[0].user, "\u{3042}");
    assert_eq!(lines[0].text, "a \"quoted\"\nline");
}

#[test]
fn messages_from_non_arrays_or_bad_text_are_empty() {
    assert!(parse_messages("").is_empty());
    assert!(parse_messages("not json").is_empty());
    assert!(parse_messages(r#"{"id":"1"}"#).is_empty());
    assert!(parse_messages("[]").is_empty());
    assert!(parse_messages("[1,2").is_empty());
}

#[test]
fn array_items_that_are_not_objects_give_empty_lines() {
    let lines = parse_messages(r#"["x", 3]"#);
    assert_eq!(lines.len(), 2);
    assert_eq!(lines[0].id, "");
    assert_eq!(lines[1].text, "");
}

#[test]
fn players_snapshot_is_read_in_full() {
    let raw = r##"{
        "players": {
            "b": {"name":"bob","job":"villager","color":"tan","alive":"0","is_cpu":"1","is_active":true},
            "a": {"name":"alice","job":"seer","color":"#00ff00","alive":"1","is_cpu":"0","is_active":false}
        },
        "room": {"name":"Hallway","scene":"night","day":"3","teiin":"10"},
        "player": {"name":"alice","color":"#00ff00"}
    }"##;
    let snap = parse_players(raw);
    assert_eq!(snap.players.len(), 2);
    // members come in key order
    assert_eq!(snap.players[0].name, "alice");
    assert_eq!(snap.players[0].job, "seer");
    assert!(snap.players[0].alive);
    assert!(!snap.players[0].is_cpu);
    assert!(!snap.players[0].is_active);
    assert_eq!(snap.players[1].name, "bob");
    assert!(!snap.players[1].alive);
    assert!(snap.players[1].is_cpu);
    assert!(snap.players[1].is_active);
    assert_eq!(snap.players[1].color, "tan");
    assert_eq!(snap.room.name, "Hallway");
    assert_eq!(snap.room.scene, "night");
    assert_eq!(snap.room.day, "3");
    assert_eq!(snap.room.teiin, "10");
    assert_eq!(snap.me, "alice");
    assert_eq!(snap.my_color, "#00ff00");
}

#[test]
fn players_flags_need_exact_values() {
    let raw = r#"{"players":{"x":{"name":"x","alive":1,"is_cpu":"true","is_active":"true"}}}"#;
    let snap = parse_players(raw);
    assert_eq!(snap.players.len(), 1);
    assert!(!snap.players[0].alive);
    assert!(!snap.players[0].is_cpu);
    assert!(!snap.players[0].is_active);
    assert_eq!(snap.players[0].job, "");
}

#[test]
fn players_of_bad_documents_are_empty() {
    for raw in ["", "oops", "[]", r#"{"players":[1,2]}"#, r#"{"room":"Hallway"}"#] {
        let snap = parse_players(raw);
        assert!(snap.players.is_empty());
        assert_eq!(snap.room.name, "");
        assert_eq!(snap.room.scene, "");
        assert_eq!(snap.me, "");
        assert_eq!(snap.my_color, "");
    }
}

#[test]
fn message_query_adds_last_id_once_known() {
    let q = message_query("");
    assert_eq!(q.len(), 2);
    assert_eq!(q[0], ("mode".to_string(), "message".to_string()));
    assert_eq!(q[1].0, "id");
    assert_eq!(q[1].1, "らぶちぃべんちれーしょんふぉーえばー");
    let q = message_query("42");
    assert_eq!(q.len(), 3);
    assert_eq!(q[2], ("last_id".to_string(), "42".to_string()));
}

#[test]
fn message_params_name_the_recipient() {
    let p = message_params("ALL", "hello");
    assert_eq!(
        p,
        vec![
            ("mode".to_string(), "message".to_string()),
            ("to_user".to_string(), "ALL".to_string()),
            ("message".to_string(), "hello".to_string()),
        ]
    );
    let w = message_params("bob", "psst");
    assert_eq!(w[1].1, "bob");
    assert_eq!(w[2].1, "psst");
}

#[test]
fn newest_id_is_the_greatest_string() {
    assert_eq!(newest_message_id(&vec![]), None);
    assert_eq!(newest_message_id(&vec![line("1"), line("3"), line("2")]), Some("3".to_string()));
    // compared as strings, as the server's ids are
    assert_eq!(newest_message_id(&vec![line("10"), line("9")]), Some("9".to_string()));
    assert_eq!(newest_message_id(&vec![line("ab"), line("abc"), line("a")]), Some("abc".to_string()));
    assert_eq!(newest_message_id(&vec![line("z"), line("\u{3042}")]), Some("\u{3042}".to_string()));
}

#[test]
fn players_cache_lasts_ten_seconds() {
    assert!(players_cache_fresh(0));
    assert!(players_cache_fresh(9_999));
    assert!(!players_cache_fresh(10_000));
    assert!(!players_cache_fresh(60_000));
}
