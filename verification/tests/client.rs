use rosa::api::{ChatLine, PlayerInfo, PlayersSnapshot, RoomInfo};
use rosa::app::{ApiCommand, ApiEvent, App, ExplorerFocus, Key, KeyCode, Mode, Panel};

fn key(c: char) -> Key {
    Key { code: KeyCode::Char(c), ctrl: false }
}

fn ctrl(c: char) -> Key {
    Key { code: KeyCode::Char(c), ctrl: true }
}

fn code(code: KeyCode) -> Key {
    Key { code, ctrl: false }
}

fn press(app: &mut App, keys: &[Key]) -> Vec<String> {
    let mut sent = Vec::new();
    for k in keys {
        if let Some(ApiCommand::Send(t)) = app.handle_key(*k) {
            sent.push(t);
        }
    }
    sent
}

fn typed(app: &mut App, text: &str) {
    for c in text.chars() {
        press(app, &[key(c)]);
    }
}

fn chat(id: &str, user: &str, text: &str) -> ChatLine {
    ChatLine { id: id.into(), user: user.into(), text: text.into(), color: "white".into() }
}

fn player(name: &str, alive: bool) -> PlayerInfo {
    PlayerInfo {
        name: name.into(),
        job: "villager".into(),
        color: "tan".into(),
        alive,
        is_cpu: false,
        is_active: true,
    }
}

fn snapshot(room: &str, me: &str, players: Vec<PlayerInfo>) -> PlayersSnapshot {
    PlayersSnapshot {
        players,
        room: RoomInfo { name: room.into(), scene: "day".into(), day: "2".into(), teiin: "8".into() },
        me: me.into(),
        my_color: "#123456".into(),
    }
}

fn texts(app: &App) -> Vec<(String, bool)> {
    app.messages.iter().map(|m| (m.text.clone(), m.pending)).collect()
}

#[test]
fn starts_with_a_system_message() {
    let app = App::new();
    assert_eq!(app.messages.len(), 1);
    assert_eq!(app.messages[0].user, "system");
    assert_eq!(app.messages[0].text, "RosaClient started");
    assert_eq!(app.messages[0].color, "skyblue");
    assert!(!app.messages[0].pending);
    assert_eq!(app.mode, Mode::Normal);
    assert_eq!(app.panel, Panel::Explorer);
    assert_eq!(app.explorer_focus, ExplorerFocus::Rooms);
    assert!(app.running);
    assert!(!app.connected);
    assert_eq!(app.poll_interval_ms, 2000);
}

#[test]
fn sending_shows_a_pending_message_until_confirmed() {
    let mut app = App::new();
    press(&mut app, &[key('i')]);
    assert_eq!(app.mode, Mode::Insert);
    assert_eq!(app.panel, Panel::Terminal);
    typed(&mut app, "hello");
    let sent = press(&mut app, &[code(KeyCode::Enter)]);
    assert_eq!(sent, vec!["hello".to_string()]);
    assert_eq!(app.input, "");
    assert_eq!(app.pending_text, vec!["hello".to_string()]);
    let last = app.messages.last().unwrap();
    assert_eq!(last.user, "me");
    assert_eq!(last.text, "hello");
    assert!(last.pending);
    assert_eq!(app.message_cursor, 1);

    // an unrelated batch: history stays, the pending message stays last
    app.apply_event(ApiEvent::Messages(vec![chat("1", "bob", "hi all")]));
    assert!(app.connected);
    assert_eq!(
        texts(&app),
        vec![
            ("RosaClient started".to_string(), false),
            ("hi all".to_string(), false),
            ("hello".to_string(), true),
        ]
    );

    // the server confirms: the sending mark goes away
    app.apply_event(ApiEvent::Messages(vec![chat("2", "me", "hello")]));
    assert!(app.pending_text.is_empty());
    assert_eq!(
        texts(&app),
        vec![
            ("RosaClient started".to_string(), false),
            ("hi all".to_string(), false),
            ("hello".to_string(), false),
        ]
    );
    assert_eq!(app.message_cursor, 2);
    assert_eq!(app.scroll, 2);
}

#[test]
fn confirmation_uses_the_players_name_once_known() {
    let mut app = App::new();
    app.apply_event(ApiEvent::Players(snapshot("Hall", "alice", vec![])));
    press(&mut app, &[key('i')]);
    typed(&mut app, "yo");
    press(&mut app, &[code(KeyCode::Enter)]);
    assert_eq!(app.messages.last().unwrap().user, "alice");
    assert_eq!(app.messages.last().unwrap().color, "#123456");
    // a line by someone else with the same text does not confirm it
    app.apply_event(ApiEvent::Messages(vec![chat("1", "bob", "yo")]));
    assert_eq!(app.pending_text, vec!["yo".to_string()]);
    assert!(app.messages.last().unwrap().pending);
    app.apply_event(ApiEvent::Messages(vec![chat("2", "alice", "yo")]));
    assert!(app.pending_text.is_empty());
    assert!(app.messages.iter().all(|m| !m.pending));
}

#[test]
fn empty_batches_change_nothing_but_the_connection() {
    let mut app = App::new();
    app.apply_event(ApiEvent::Messages(vec![]));
    assert!(app.connected);
    assert_eq!(app.messages.len(), 1);
}

#[test]
fn a_cursor_above_the_end_stays_put() {
    let mut app = App::new();
    app.apply_event(ApiEvent::Messages(vec![chat("1", "a", "x"), chat("2", "b", "y")]));
    assert_eq!(app.message_cursor, 2);
    app.panel = Panel::Chat;
    press(&mut app, &[key('g'), key('g')]);
    assert_eq!(app.message_cursor, 0);
    app.apply_event(ApiEvent::Messages(vec![chat("3", "c", "z")]));
    assert_eq!(app.message_cursor, 0);
    assert_eq!(app.messages.len(), 4);
}

#[test]
fn errors_go_offline_and_show_the_reason() {
    let mut app = App::new();
    app.connected = true;
    app.apply_event(ApiEvent::Error("timeout".into()));
    assert!(!app.connected);
    let last = app.messages.last().unwrap();
    assert_eq!(last.user, "system");
    assert_eq!(last.text, "timeout");
    assert_eq!(last.color, "tomato");
    assert!(!last.pending);
}

#[test]
fn players_fill_the_explorer() {
    let mut app = App::new();
    app.selected_user = 5;
    app.apply_event(ApiEvent::Players(snapshot(
        "Hall",
        "alice",
        vec![player("alice", true), player("bob", false)],
    )));
    assert!(app.connected);
    assert_eq!(app.rooms.len(), 1);
    assert_eq!(app.rooms[0].name, "Hall");
    assert_eq!(app.selected_room, 0);
    assert_eq!(app.users.len(), 2);
    assert_eq!(app.selected_user, 1);
    assert_eq!(app.my_name, "alice");
    assert_eq!(app.room.teiin, "8");
    // a snapshot without a room name keeps the rooms
    app.apply_event(ApiEvent::Players(snapshot("", "alice", vec![])));
    assert_eq!(app.rooms.len(), 1);
    assert_eq!(app.selected_user, 0);
}

#[test]
fn escape_in_insert_mode_discards_the_draft() {
    let mut app = App::new();
    press(&mut app, &[key('a')]);
    typed(&mut app, "draft");
    press(&mut app, &[code(KeyCode::Backspace)]);
    assert_eq!(app.input, "draf");
    press(&mut app, &[code(KeyCode::Esc)]);
    assert_eq!(app.mode, Mode::Normal);
    assert_eq!(app.input, "");
    // Enter on an empty line sends nothing
    press(&mut app, &[key('i')]);
    assert!(press(&mut app, &[code(KeyCode::Enter)]).is_empty());
    assert_eq!(app.messages.len(), 1);
}

#[test]
fn all_insert_keys_enter_insert_mode() {
    for c in ['i', 'a', 'A', 'I', 'o', 'O'] {
        let mut app = App::new();
        press(&mut app, &[key(c)]);
        assert_eq!(app.mode, Mode::Insert);
        assert_eq!(app.panel, Panel::Terminal);
    }
}

#[test]
fn tab_cycles_the_panels() {
    let mut app = App::new();
    let order = [Panel::Chat, Panel::Context, Panel::Terminal, Panel::Explorer];
    for p in order {
        press(&mut app, &[code(KeyCode::Tab)]);
        assert_eq!(app.panel, p);
    }
    press(&mut app, &[code(KeyCode::BackTab)]);
    assert_eq!(app.panel, Panel::Terminal);
    press(&mut app, &[code(KeyCode::Tab)]);
    assert_eq!(app.panel, Panel::Explorer);
}

#[test]
fn ctrl_w_moves_between_panels() {
    let mut app = App::new();
    press(&mut app, &[ctrl('w'), key('l')]);
    assert_eq!(app.panel, Panel::Chat);
    press(&mut app, &[ctrl('w'), key('j')]);
    assert_eq!(app.panel, Panel::Terminal);
    press(&mut app, &[ctrl('w'), key('h')]);
    assert_eq!(app.panel, Panel::Context);
    press(&mut app, &[ctrl('w'), key('k')]);
    assert_eq!(app.panel, Panel::Explorer);
    // a direction that leads nowhere keeps the panel, and the prefix is spent
    press(&mut app, &[ctrl('w'), key('h')]);
    assert_eq!(app.panel, Panel::Explorer);
    assert!(!app.pending_ctrl_w);
    press(&mut app, &[ctrl('w'), key('x')]);
    assert_eq!(app.panel, Panel::Explorer);
    assert_eq!(app.messages.len(), 1);
}

fn chat_app(n: usize) -> App {
    let mut app = App::new();
    let lines: Vec<ChatLine> = (0..n).map(|i| chat(&i.to_string(), "u", &format!("m{}", i))).collect();
    app.apply_event(ApiEvent::Messages(lines));
    app.panel = Panel::Chat;
    app
}

#[test]
fn chat_cursor_moves_and_stops_at_the_ends() {
    let mut app = chat_app(30);
    assert_eq!(app.message_cursor, 30);
    press(&mut app, &[key('g'), key('g')]);
    assert_eq!(app.message_cursor, 0);
    press(&mut app, &[key('j')]);
    assert_eq!(app.message_cursor, 1);
    press(&mut app, &[code(KeyCode::Down)]);
    assert_eq!(app.message_cursor, 2);
    press(&mut app, &[ctrl('d')]);
    assert_eq!(app.message_cursor, 10);
    press(&mut app, &[ctrl('f')]);
    assert_eq!(app.message_cursor, 26);
    press(&mut app, &[ctrl('f')]);
    assert_eq!(app.message_cursor, 30);
    assert_eq!(app.scroll, 30);
    press(&mut app, &[ctrl('u')]);
    assert_eq!(app.message_cursor, 22);
    press(&mut app, &[ctrl('b')]);
    assert_eq!(app.message_cursor, 6);
    press(&mut app, &[key('k'), code(KeyCode::Up)]);
    assert_eq!(app.message_cursor, 4);
    press(&mut app, &[ctrl('b')]);
    assert_eq!(app.message_cursor, 0);
    press(&mut app, &[key('G')]);
    assert_eq!(app.message_cursor, 30);
    // g followed by another key does nothing but clear the prefix
    press(&mut app, &[key('g'), key('j')]);
    assert_eq!(app.message_cursor, 30);
    assert!(!app.pending_g);
}

#[test]
fn explorer_lists_have_their_own_cursors() {
    let mut app = App::new();
    app.apply_event(ApiEvent::Players(snapshot(
        "Hall",
        "a",
        vec![player("a", true), player("b", true), player("c", true)],
    )));
    press(&mut app, &[key('l')]);
    assert_eq!(app.explorer_focus, ExplorerFocus::Users);
    press(&mut app, &[key('j'), key('j'), key('j')]);
    assert_eq!(app.selected_user, 2);
    press(&mut app, &[key('k')]);
    assert_eq!(app.selected_user, 1);
    press(&mut app, &[code(KeyCode::Left)]);
    assert_eq!(app.explorer_focus, ExplorerFocus::Rooms);
    press(&mut app, &[key('j')]);
    assert_eq!(app.selected_room, 0);
    press(&mut app, &[code(KeyCode::Right), key('G')]);
    assert_eq!(app.selected_user, 2);
    press(&mut app, &[key('g'), key('g')]);
    assert_eq!(app.selected_user, 0);
    // h and l only switch lists in the explorer
    app.panel = Panel::Chat;
    press(&mut app, &[key('h')]);
    assert_eq!(app.explorer_focus, ExplorerFocus::Users);
}

#[test]
fn deleting_removes_from_the_display_only() {
    let mut app = chat_app(3);
    press(&mut app, &[key('g'), key('g'), key('j')]);
    let sent = press(&mut app, &[key('d'), key('d')]);
    assert!(sent.is_empty());
    assert_eq!(app.messages.len(), 3);
    assert_eq!(app.messages[1].text, "m1");
    press(&mut app, &[key('G'), key('x')]);
    assert_eq!(app.messages.len(), 2);
    assert_eq!(app.message_cursor, 1);
    // d followed by another key does not delete
    press(&mut app, &[key('d'), key('j')]);
    assert_eq!(app.messages.len(), 2);
    // outside the chat nothing is deleted
    app.panel = Panel::Explorer;
    press(&mut app, &[key('x')]);
    assert_eq!(app.messages.len(), 2);
}

#[test]
fn deleting_a_pending_message_forgets_it() {
    let mut app = App::new();
    press(&mut app, &[key('i')]);
    typed(&mut app, "oops");
    press(&mut app, &[code(KeyCode::Enter), code(KeyCode::Esc)]);
    app.panel = Panel::Chat;
    press(&mut app, &[key('x')]);
    assert!(app.pending_text.is_empty());
    app.apply_event(ApiEvent::Messages(vec![chat("1", "bob", "later")]));
    assert!(app.messages.iter().all(|m| m.text != "oops"));
}

#[test]
fn search_is_case_insensitive_and_wraps() {
    let mut app = App::new();
    app.apply_event(ApiEvent::Messages(vec![
        chat("1", "alice", "Hello there"),
        chat("2", "bob", "nothing"),
        chat("3", "HELLOkitty", "bye"),
    ]));
    app.message_cursor = 0;
    press(&mut app, &[key('/')]);
    assert_eq!(app.mode, Mode::Search);
    typed(&mut app, "hElLo");
    press(&mut app, &[code(KeyCode::Enter)]);
    assert_eq!(app.mode, Mode::Normal);
    assert_eq!(app.panel, Panel::Chat);
    assert_eq!(app.message_cursor, 1);
    press(&mut app, &[key('n')]);
    assert_eq!(app.message_cursor, 3);
    assert_eq!(app.scroll, 3);
    press(&mut app, &[key('n')]);
    assert_eq!(app.message_cursor, 1);
    press(&mut app, &[key('N')]);
    assert_eq!(app.message_cursor, 3);
    // no match leaves the cursor
    press(&mut app, &[key('/')]);
    typed(&mut app, "zzz");
    press(&mut app, &[code(KeyCode::Enter)]);
    assert_eq!(app.message_cursor, 3);
    // an empty search does nothing
    press(&mut app, &[key('/'), code(KeyCode::Enter), key('n')]);
    assert_eq!(app.message_cursor, 3);
}

#[test]
fn a_lone_match_is_found_from_itself() {
    let mut app = App::new();
    app.apply_event(ApiEvent::Messages(vec![chat("1", "a", "needle")]));
    app.message_cursor = 1;
    app.search = "NEEDLE".into();
    press(&mut app, &[key('n')]);
    assert_eq!(app.message_cursor, 1);
    press(&mut app, &[key('N')]);
    assert_eq!(app.message_cursor, 1);
}

#[test]
fn colon_commands() {
    let mut app = chat_app(2);
    press(&mut app, &[key(':')]);
    assert_eq!(app.mode, Mode::Command);
    typed(&mut app, "clearx");
    press(&mut app, &[code(KeyCode::Backspace), code(KeyCode::Enter)]);
    assert!(app.messages.is_empty());
    assert_eq!(app.message_cursor, 0);
    assert_eq!(app.command, "");
    assert_eq!(app.mode, Mode::Normal);
    press(&mut app, &[key(':')]);
    typed(&mut app, "nope");
    press(&mut app, &[code(KeyCode::Enter)]);
    assert!(app.running);
    assert_eq!(app.mode, Mode::Normal);
    press(&mut app, &[key(':')]);
    typed(&mut app, "quit");
    press(&mut app, &[code(KeyCode::Enter)]);
    assert!(!app.running);
    let mut app = App::new();
    press(&mut app, &[key(':'), key('q'), code(KeyCode::Enter)]);
    assert!(!app.running);
}

#[test]
fn q_quits_and_escape_clears_prefixes() {
    let mut app = App::new();
    press(&mut app, &[key('q')]);
    assert!(!app.running);
    let mut app = App::new();
    press(&mut app, &[ctrl('q')]);
    assert!(!app.running);
    let mut app = App::new();
    press(&mut app, &[ctrl('w')]);
    assert!(app.pending_ctrl_w);
    press(&mut app, &[code(KeyCode::Esc)]);
    assert!(!app.pending_ctrl_w);
    assert_eq!(app.mode, Mode::Normal);
    press(&mut app, &[key('/'), key('a'), code(KeyCode::Esc)]);
    assert_eq!(app.mode, Mode::Normal);
    assert_eq!(app.search, "a");
}

#[test]
fn cursors_stay_on_their_lists() {
    let mut app = chat_app(5);
    let keys = [
        key('j'), ctrl('f'), key('x'), key('d'), key('d'), key('G'), key('x'), key(':'),
        key('c'), key('l'), key('e'), key('a'), key('r'), code(KeyCode::Enter), key('j'),
        key('G'), ctrl('d'), key('i'), key('z'), code(KeyCode::Enter), code(KeyCode::Esc),
    ];
    for k in keys {
        press(&mut app, &[k]);
        assert!(app.messages.is_empty() && app.message_cursor == 0 || app.message_cursor < app.messages.len());
    }
}
