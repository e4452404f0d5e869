use rosa::api::PlayerInfo;
use rosa::app::{App, Mode, Panel};
use rosa::display::{
    alive_count, chat_color, connection_labels, list_selection, mode_label, needs_scrollbar,
    or_dash, panel_label, screen_fits, status_room, terminal_cursor_shown, terminal_line,
    user_badge, Prompt, Rgb, UserBadge,
};

fn rgb(r: u8, g: u8, b: u8) -> Rgb {
    Rgb { r, g, b }
}

#[test]
fn hex_colors() {
    assert_eq!(chat_color("#ff8000"), rgb(255, 128, 0));
    assert_eq!(chat_color("#FFfFfF"), rgb(255, 255, 255));
    assert_eq!(chat_color("#abc"), rgb(0xaa, 0xbb, 0xcc));
    assert_eq!(chat_color("#abc"), chat_color("#aabbcc"));
    // a sign, as u32::from_str_radix takes it
    assert_eq!(chat_color("#+12345"), rgb(0x01, 0x23, 0x45));
}

#[test]
fn malformed_hex_falls_back_to_text() {
    let text = rgb(205, 214, 244);
    assert_eq!(chat_color("#12345"), text);
    assert_eq!(chat_color("#1234567"), text);
    assert_eq!(chat_color("#gggggg"), text);
    assert_eq!(chat_color("#+ab"), text);
    assert_eq!(chat_color("#"), text);
    assert_eq!(chat_color("#\u{e9}\u{e9}\u{e9}"), text);
    assert_eq!(chat_color("ff8000"), text);
    assert_eq!(chat_color(""), text);
}

#[test]
fn named_colors() {
    assert_eq!(chat_color("white"), rgb(205, 214, 244));
    assert_eq!(chat_color("tomato"), rgb(243, 139, 168));
    assert_eq!(chat_color("lime"), rgb(166, 227, 161));
    assert_eq!(chat_color("tan"), rgb(250, 179, 135));
    assert_eq!(chat_color("violet"), rgb(203, 166, 247));
    assert_eq!(chat_color("pink"), rgb(245, 194, 231));
    assert_eq!(chat_color("skyblue"), rgb(137, 220, 235));
    assert_eq!(chat_color("Tomato"), rgb(205, 214, 244));
}

fn user(job: &str, alive: bool, is_cpu: bool) -> PlayerInfo {
    PlayerInfo {
        name: "x".into(),
        job: job.into(),
        color: String::new(),
        alive,
        is_cpu,
        is_active: false,
    }
}

#[test]
fn user_badges() {
    assert_eq!(user_badge(&user("\u{89b3}\u{6218}\u{8005}", false, true)), UserBadge::Spectator);
    assert_eq!(user_badge(&user("seer", false, true)), UserBadge::Dead);
    assert_eq!(user_badge(&user("seer", true, true)), UserBadge::Cpu);
    assert_eq!(user_badge(&user("seer", true, false)), UserBadge::Alive);
}

#[test]
fn list_selection_is_clamped() {
    assert_eq!(list_selection(0, 3), None);
    assert_eq!(list_selection(5, 3), Some(3));
    assert_eq!(list_selection(2, 3), Some(1));
}

#[test]
fn alive_players_are_counted() {
    let users = vec![user("a", true, false), user("b", false, false), user("c", true, true)];
    assert_eq!(alive_count(&users), 2);
    assert_eq!(alive_count(&vec![]), 0);
}

#[test]
fn scrollbar_and_screen_size() {
    assert!(!needs_scrollbar(8, 10));
    assert!(needs_scrollbar(9, 10));
    assert!(needs_scrollbar(1, 1));
    assert!(!needs_scrollbar(0, 0));
    assert!(screen_fits(35, 14));
    assert!(!screen_fits(34, 14));
    assert!(!screen_fits(80, 13));
}

#[test]
fn labels() {
    assert_eq!(mode_label(Mode::Normal), "NORMAL");
    assert_eq!(mode_label(Mode::Insert), "INSERT");
    assert_eq!(mode_label(Mode::Command), "COMMAND");
    assert_eq!(mode_label(Mode::Search), "SEARCH");
    assert_eq!(panel_label(Panel::Explorer), "explorer");
    assert_eq!(panel_label(Panel::Terminal), "terminal");
    assert_eq!(or_dash(""), "-");
    assert_eq!(or_dash("night"), "night");
    assert_eq!(status_room(""), "no room");
    assert_eq!(status_room("Hall"), "Hall");
    assert_eq!(connection_labels(true), ("online", "\u{25cf} connected"));
    assert_eq!(connection_labels(false), ("offline", "\u{25cf} offline"));
}

#[test]
fn terminal_shows_the_line_of_the_mode() {
    let mut app = App::new();
    app.input = "msg".into();
    app.command = "cmd".into();
    app.search = "find".into();
    assert_eq!(terminal_line(&app), (Prompt::Input, "msg".to_string()));
    assert!(!terminal_cursor_shown(&app));
    app.mode = Mode::Command;
    assert_eq!(terminal_line(&app), (Prompt::Command, "cmd".to_string()));
    assert!(!terminal_cursor_shown(&app));
    app.panel = Panel::Terminal;
    assert!(terminal_cursor_shown(&app));
    app.mode = Mode::Search;
    assert_eq!(terminal_line(&app), (Prompt::Search, "find".to_string()));
}
