//! The client's state and how keys and server events change it.
use vstd::arithmetic::div_mod::{
    lemma_fundamental_div_mod, lemma_mod_add_multiples_vanish, lemma_mod_multiples_vanish,
    lemma_small_mod,
};
use vstd::prelude::*;

use crate::api::{
    lines_view, players_view, ChatLine, ChatLineView, PlayerInfo, PlayerInfoView,
    PlayersSnapshot, PlayersSnapshotView, RoomInfo, RoomInfoView,
};
use crate::text::{
    contains_text, has_substring, lowercase_of, owned, pop_char, push_char, same_text,
    to_lowercase,
};

verus! {

/// A room in the explorer.
#[derive(Clone)]
pub struct Room {
    pub name: String,
}

/// A message shown in the chat panel; `pending` while the server has not
/// confirmed one that this client sent.
#[derive(Clone)]
pub struct Message {
    pub user: String,
    pub text: String,
    pub color: String,
    pub pending: bool,
}

pub struct MessageView {
    pub user: Seq<char>,
    pub text: Seq<char>,
    pub color: Seq<char>,
    pub pending: bool,
}

impl View for Message {
    type V = MessageView;

    open spec fn view(&self) -> MessageView {
        MessageView { user: self.user@, text: self.text@, color: self.color@, pending: self.pending }
    }
}

/// What the poller reports.
pub enum ApiEvent {
    Messages(Vec<ChatLine>),
    Players(PlayersSnapshot),
    Error(String),
}

pub enum ApiEventView {
    Messages(Seq<ChatLineView>),
    Players(PlayersSnapshotView),
    Error(Seq<char>),
}

impl View for ApiEvent {
    type V = ApiEventView;

    open spec fn view(&self) -> ApiEventView {
        match self {
            ApiEvent::Messages(lines) => ApiEventView::Messages(lines_view(lines@)),
            ApiEvent::Players(s) => ApiEventView::Players(s@),
            ApiEvent::Error(r) => ApiEventView::Error(r@),
        }
    }
}

/// What the client asks the sender to do.
pub enum ApiCommand {
    Send(String),
}

/// The text of a command, if any.
pub open spec fn command_view(c: Option<ApiCommand>) -> Option<Seq<char>> {
    match c {
        Some(ApiCommand::Send(t)) => Some(t@),
        None => None,
    }
}

#[derive(Clone, Copy, PartialEq, Eq, Structural, Debug)]
pub enum Mode {
    Normal,
    Insert,
    Command,
    Search,
}

#[derive(Clone, Copy, PartialEq, Eq, Structural, Debug)]
pub enum Panel {
    Explorer,
    Chat,
    Context,
    Terminal,
}

#[derive(Clone, Copy, PartialEq, Eq, Structural, Debug)]
pub enum ExplorerFocus {
    Rooms,
    Users,
}

/// A key as the client reads it: which key, and whether Ctrl was held.
#[derive(Clone, Copy, PartialEq, Eq, Structural, Debug)]
pub enum KeyCode {
    Char(char),
    Tab,
    BackTab,
    Up,
    Down,
    Left,
    Right,
    Enter,
    Esc,
    Backspace,
    Other,
}

#[derive(Clone, Copy, PartialEq, Eq, Structural, Debug)]
pub struct Key {
    pub code: KeyCode,
    pub ctrl: bool,
}

/// The whole state of the client's screen.
pub struct App {
    pub rooms: Vec<Room>,
    pub selected_room: usize,
    pub users: Vec<PlayerInfo>,
    pub selected_user: usize,
    pub room: RoomInfo,
    pub explorer_focus: ExplorerFocus,
    pub messages: Vec<Message>,
    pub message_cursor: usize,
    pub pending_text: Vec<String>,
    pub my_name: String,
    pub my_color: String,
    pub input: String,
    pub url: String,
    pub command: String,
    pub search: String,
    pub mode: Mode,
    pub panel: Panel,
    pub connected: bool,
    pub running: bool,
    pub pending_g: bool,
    pub pending_d: bool,
    pub pending_ctrl_w: bool,
    pub scroll: usize,
    pub poll_interval_ms: u64,
}

#[verifier::ext_equal]
pub struct AppView {
    pub rooms: Seq<Seq<char>>,
    pub selected_room: nat,
    pub users: Seq<PlayerInfoView>,
    pub selected_user: nat,
    pub room: RoomInfoView,
    pub explorer_focus: ExplorerFocus,
    pub messages: Seq<MessageView>,
    pub message_cursor: nat,
    pub pending_text: Seq<Seq<char>>,
    pub my_name: Seq<char>,
    pub my_color: Seq<char>,
    pub input: Seq<char>,
    pub url: Seq<char>,
    pub command: Seq<char>,
    pub search: Seq<char>,
    pub mode: Mode,
    pub panel: Panel,
    pub connected: bool,
    pub running: bool,
    pub pending_g: bool,
    pub pending_d: bool,
    pub pending_ctrl_w: bool,
    pub scroll: nat,
    pub poll_interval_ms: nat,
}

pub open spec fn rooms_view(v: Seq<Room>) -> Seq<Seq<char>> {
    v.map_values(|r: Room| r.name@)
}

pub open spec fn messages_view(v: Seq<Message>) -> Seq<MessageView> {
    v.map_values(|m: Message| m@)
}

pub open spec fn texts_view(v: Seq<String>) -> Seq<Seq<char>> {
    v.map_values(|t: String| t@)
}

impl View for App {
    type V = AppView;

    open spec fn view(&self) -> AppView {
        AppView {
            rooms: rooms_view(self.rooms@),
            selected_room: self.selected_room as nat,
            users: players_view(self.users@),
            selected_user: self.selected_user as nat,
            room: self.room@,
            explorer_focus: self.explorer_focus,
            messages: messages_view(self.messages@),
            message_cursor: self.message_cursor as nat,
            pending_text: texts_view(self.pending_text@),
            my_name: self.my_name@,
            my_color: self.my_color@,
            input: self.input@,
            url: self.url@,
            command: self.command@,
            search: self.search@,
            mode: self.mode,
            panel: self.panel,
            connected: self.connected,
            running: self.running,
            pending_g: self.pending_g,
            pending_d: self.pending_d,
            pending_ctrl_w: self.pending_ctrl_w,
            scroll: self.scroll as nat,
            poll_interval_ms: self.poll_interval_ms as nat,
        }
    }
}

// ---------------------------------------------------------------------------
// The model

/// The index of the last entry of a list of `len` entries (0 for none).
pub open spec fn last_slot(len: nat) -> nat {
    if len == 0 {
        0
    } else {
        (len - 1) as nat
    }
}

pub open spec fn min_nat(a: nat, b: nat) -> nat {
    if a <= b {
        a
    } else {
        b
    }
}

/// `a - b`, or 0 where `b` is larger.
pub open spec fn less_or_zero(a: nat, b: nat) -> nat {
    if a >= b {
        (a - b) as nat
    } else {
        0
    }
}

/// The name this client's own messages are shown under.
pub open spec fn display_name(my_name: Seq<char>) -> Seq<char> {
    if my_name.len() == 0 {
        "me"@
    } else {
        my_name
    }
}

/// The state the client starts in.
pub open spec fn initial_view() -> AppView {
    AppView {
        rooms: Seq::empty(),
        selected_room: 0,
        users: Seq::empty(),
        selected_user: 0,
        room: RoomInfoView {
            name: Seq::empty(),
            scene: Seq::empty(),
            day: Seq::empty(),
            teiin: Seq::empty(),
        },
        explorer_focus: ExplorerFocus::Rooms,
        messages: seq![
            MessageView {
                user: "system"@,
                text: "RosaClient started"@,
                color: "skyblue"@,
                pending: false,
            },
        ],
        message_cursor: 0,
        pending_text: Seq::empty(),
        my_name: Seq::empty(),
        my_color: Seq::empty(),
        input: Seq::empty(),
        url: Seq::empty(),
        command: Seq::empty(),
        search: Seq::empty(),
        mode: Mode::Normal,
        panel: Panel::Explorer,
        connected: false,
        running: true,
        pending_g: false,
        pending_d: false,
        pending_ctrl_w: false,
        scroll: 0,
        poll_interval_ms: 2000,
    }
}

/// The cursor of the focused list moved `step` entries down, stopping at the
/// last entry; the chat view scrolls with its cursor.
pub open spec fn moved_down(s: AppView, step: nat) -> AppView {
    match s.panel {
        Panel::Explorer => match s.explorer_focus {
            ExplorerFocus::Rooms => AppView {
                selected_room: min_nat(s.selected_room + step, last_slot(s.rooms.len())),
                ..s
            },
            ExplorerFocus::Users => AppView {
                selected_user: min_nat(s.selected_user + step, last_slot(s.users.len())),
                ..s
            },
        },
        Panel::Chat => {
            let c = min_nat(s.message_cursor + step, last_slot(s.messages.len()));
            AppView { message_cursor: c, scroll: c, ..s }
        },
        _ => s,
    }
}

/// The cursor of the focused list moved `step` entries up, stopping at 0.
pub open spec fn moved_up(s: AppView, step: nat) -> AppView {
    match s.panel {
        Panel::Explorer => match s.explorer_focus {
            ExplorerFocus::Rooms => AppView {
                selected_room: less_or_zero(s.selected_room, step),
                ..s
            },
            ExplorerFocus::Users => AppView {
                selected_user: less_or_zero(s.selected_user, step),
                ..s
            },
        },
        Panel::Chat => {
            let c = less_or_zero(s.message_cursor, step);
            AppView { message_cursor: c, scroll: c, ..s }
        },
        _ => s,
    }
}

/// The cursor of the focused list on its first entry.
pub open spec fn at_top(s: AppView) -> AppView {
    match s.panel {
        Panel::Explorer => match s.explorer_focus {
            ExplorerFocus::Rooms => AppView { selected_room: 0, ..s },
            ExplorerFocus::Users => AppView { selected_user: 0, ..s },
        },
        Panel::Chat => AppView { message_cursor: 0, scroll: 0, ..s },
        _ => s,
    }
}

/// The cursor of the focused list on its last entry.
pub open spec fn at_bottom(s: AppView) -> AppView {
    match s.panel {
        Panel::Explorer => match s.explorer_focus {
            ExplorerFocus::Rooms => AppView { selected_room: last_slot(s.rooms.len()), ..s },
            ExplorerFocus::Users => AppView { selected_user: last_slot(s.users.len()), ..s },
        },
        Panel::Chat => {
            let c = last_slot(s.messages.len());
            AppView { message_cursor: c, scroll: c, ..s }
        },
        _ => s,
    }
}

/// Keeps the texts that differ from `text`.
pub open spec fn other_than(text: Seq<char>) -> spec_fn(Seq<char>) -> bool {
    |t: Seq<char>| t != text
}

/// The message under the chat cursor removed from the display (a pending one
/// is also forgotten, so that it is not shown again); elsewhere nothing.
pub open spec fn deleted(s: AppView) -> AppView {
    if s.panel == Panel::Chat && s.message_cursor < s.messages.len() {
        let removed = s.messages[s.message_cursor as int];
        let rest = s.messages.remove(s.message_cursor as int);
        let c = min_nat(s.message_cursor, last_slot(rest.len()));
        AppView {
            messages: rest,
            pending_text: if removed.pending {
                s.pending_text.filter(other_than(removed.text))
            } else {
                s.pending_text
            },
            message_cursor: c,
            scroll: c,
            ..s
        }
    } else {
        s
    }
}

/// A message matches a (lowercased) query where its lowercased text or user
/// contains it.
pub open spec fn matches_query(m: MessageView, query: Seq<char>) -> bool {
    has_substring(lowercase_of(m.text), query) || has_substring(lowercase_of(m.user), query)
}

/// The index looked at `offset` steps from `cursor`, wrapping around.
pub open spec fn probe(cursor: nat, len: nat, offset: nat, forward: bool) -> nat
    recommends
        len > 0,
{
    if forward {
        ((cursor + offset) as int % (len as int)) as nat
    } else {
        ((cursor + len - offset) % (len as int)) as nat
    }
}

/// `offset` is the first step, going around the chat from the cursor, that
/// reaches a message matching `query`.
pub open spec fn first_hit(s: AppView, query: Seq<char>, forward: bool, offset: nat) -> bool {
    let len = s.messages.len();
    &&& 1 <= offset <= len
    &&& matches_query(s.messages[probe(s.message_cursor, len, offset, forward) as int], query)
    &&& forall|o: nat|
        1 <= o < offset ==> !matches_query(
            #[trigger] s.messages[probe(s.message_cursor, len, o, forward) as int],
            query,
        )
}

/// `n` / `N`: the chat cursor on the next (or previous) message, going around,
/// whose text or user contains the search text regardless of case; nothing
/// moves where the search text is empty or nothing matches.
pub open spec fn searched(s: AppView, forward: bool) -> AppView {
    let query = lowercase_of(s.search);
    if s.search.len() == 0 || s.messages.len() == 0 {
        s
    } else if exists|o: nat| first_hit(s, query, forward, o) {
        let o = choose|o: nat| first_hit(s, query, forward, o);
        let i = probe(s.message_cursor, s.messages.len(), o, forward);
        AppView { message_cursor: i, scroll: i, panel: Panel::Chat, ..s }
    } else {
        s
    }
}

/// `Tab`: Explorer, Chat, Context, Terminal, and round again.
pub open spec fn next_panel(p: Panel) -> Panel {
    match p {
        Panel::Explorer => Panel::Chat,
        Panel::Chat => Panel::Context,
        Panel::Context => Panel::Terminal,
        Panel::Terminal => Panel::Explorer,
    }
}

/// `Shift+Tab`: the other way round.
pub open spec fn prev_panel(p: Panel) -> Panel {
    match p {
        Panel::Explorer => Panel::Terminal,
        Panel::Chat => Panel::Explorer,
        Panel::Context => Panel::Chat,
        Panel::Terminal => Panel::Context,
    }
}

/// `Ctrl+w` then a direction: the panel in that direction on the screen
/// (explorer and chat above context and terminal), or the same panel.
pub open spec fn window_move(p: Panel, code: KeyCode) -> Panel {
    if code == KeyCode::Char('h') {
        match p {
            Panel::Chat => Panel::Explorer,
            Panel::Terminal => Panel::Context,
            other => other,
        }
    } else if code == KeyCode::Char('l') {
        match p {
            Panel::Explorer => Panel::Chat,
            Panel::Context => Panel::Terminal,
            other => other,
        }
    } else if code == KeyCode::Char('j') {
        match p {
            Panel::Explorer => Panel::Context,
            Panel::Chat => Panel::Terminal,
            other => other,
        }
    } else if code == KeyCode::Char('k') {
        match p {
            Panel::Context => Panel::Explorer,
            Panel::Terminal => Panel::Chat,
            other => other,
        }
    } else {
        p
    }
}

/// The keys that enter Insert mode.
pub open spec fn is_insert_key(c: char) -> bool {
    c == 'i' || c == 'a' || c == 'A' || c == 'I' || c == 'o' || c == 'O'
}

/// A key in Normal mode with no pending prefix and no Ctrl binding.
pub open spec fn plain_key(s: AppView, code: KeyCode) -> AppView {
    if code == KeyCode::Char('q') {
        AppView { running: false, ..s }
    } else if code matches KeyCode::Char(c) && is_insert_key(c) {
        AppView { panel: Panel::Terminal, mode: Mode::Insert, ..s }
    } else if code == KeyCode::Char(':') {
        AppView { command: Seq::empty(), mode: Mode::Command, ..s }
    } else if code == KeyCode::Char('/') {
        AppView { search: Seq::empty(), mode: Mode::Search, ..s }
    } else if code == KeyCode::Char('n') {
        searched(s, true)
    } else if code == KeyCode::Char('N') {
        searched(s, false)
    } else if code == KeyCode::Char('d') {
        AppView { pending_d: true, ..s }
    } else if code == KeyCode::Char('x') {
        deleted(s)
    } else if code == KeyCode::Char('g') {
        AppView { pending_g: true, ..s }
    } else if code == KeyCode::Char('G') {
        at_bottom(s)
    } else if code == KeyCode::Tab {
        AppView { panel: next_panel(s.panel), ..s }
    } else if code == KeyCode::BackTab {
        AppView { panel: prev_panel(s.panel), ..s }
    } else if code == KeyCode::Char('j') || code == KeyCode::Down {
        moved_down(s, 1)
    } else if code == KeyCode::Char('k') || code == KeyCode::Up {
        moved_up(s, 1)
    } else if code == KeyCode::Char('h') || code == KeyCode::Left {
        if s.panel == Panel::Explorer {
            AppView { explorer_focus: ExplorerFocus::Rooms, ..s }
        } else {
            s
        }
    } else if code == KeyCode::Char('l') || code == KeyCode::Right {
        if s.panel == Panel::Explorer {
            AppView { explorer_focus: ExplorerFocus::Users, ..s }
        } else {
            s
        }
    } else if code == KeyCode::Esc {
        AppView {
            pending_g: false,
            pending_d: false,
            pending_ctrl_w: false,
            mode: Mode::Normal,
            ..s
        }
    } else {
        s
    }
}

/// A key in Normal mode: a pending `Ctrl+w`, `g` or `d` takes the key first,
/// then the Ctrl bindings, then the plain keys.
pub open spec fn normal_key(s: AppView, key: Key) -> AppView {
    if s.pending_ctrl_w {
        AppView { panel: window_move(s.panel, key.code), pending_ctrl_w: false, ..s }
    } else if s.pending_g {
        let t = if key.code == KeyCode::Char('g') {
            at_top(s)
        } else {
            s
        };
        AppView { pending_g: false, ..t }
    } else if s.pending_d {
        let t = if key.code == KeyCode::Char('d') {
            deleted(s)
        } else {
            s
        };
        AppView { pending_d: false, ..t }
    } else if key.ctrl && key.code == KeyCode::Char('w') {
        AppView { pending_ctrl_w: true, ..s }
    } else if key.ctrl && key.code == KeyCode::Char('d') {
        moved_down(s, 8)
    } else if key.ctrl && key.code == KeyCode::Char('u') {
        moved_up(s, 8)
    } else if key.ctrl && key.code == KeyCode::Char('f') {
        moved_down(s, 16)
    } else if key.ctrl && key.code == KeyCode::Char('b') {
        moved_up(s, 16)
    } else {
        plain_key(s, key.code)
    }
}

/// The state once `text` has been sent: it is remembered as pending and shown
/// at the end of the chat, under this client's name, with the cursor on it.
pub open spec fn with_sent(s: AppView, text: Seq<char>) -> AppView {
    let msgs = s.messages.push(
        MessageView {
            user: display_name(s.my_name),
            text: text,
            color: s.my_color,
            pending: true,
        },
    );
    AppView {
        pending_text: s.pending_text.push(text),
        messages: msgs,
        message_cursor: last_slot(msgs.len()),
        input: Seq::empty(),
        ..s
    }
}

/// A line editor's keys on `line`: Backspace drops the last character, a
/// character is appended.
pub open spec fn edited(line: Seq<char>, code: KeyCode) -> Seq<char> {
    match code {
        KeyCode::Backspace => if line.len() > 0 {
            line.drop_last()
        } else {
            line
        },
        KeyCode::Char(c) => line.push(c),
        _ => line,
    }
}

/// A key in Insert mode, and the text to send, if any. Esc leaves Insert mode
/// and discards the draft; Enter sends a non-empty draft.
pub open spec fn insert_key(s: AppView, key: Key) -> (AppView, Option<Seq<char>>) {
    if key.code == KeyCode::Esc {
        (AppView { mode: Mode::Normal, input: Seq::empty(), ..s }, None)
    } else if key.code == KeyCode::Enter {
        if s.input.len() > 0 {
            (with_sent(s, s.input), Some(s.input))
        } else {
            (s, None)
        }
    } else {
        (AppView { input: edited(s.input, key.code), ..s }, None)
    }
}

/// A key in Command mode: Enter runs `:q`, `:quit` or `:clear` (anything
/// else does nothing) and returns to Normal mode.
pub open spec fn command_key(s: AppView, key: Key) -> AppView {
    if key.code == KeyCode::Esc {
        AppView { mode: Mode::Normal, ..s }
    } else if key.code == KeyCode::Enter {
        let t = if s.command == "q"@ || s.command == "quit"@ {
            AppView { running: false, ..s }
        } else if s.command == "clear"@ {
            AppView { messages: Seq::empty(), message_cursor: 0, ..s }
        } else {
            s
        };
        AppView { command: Seq::empty(), mode: Mode::Normal, ..t }
    } else {
        AppView { command: edited(s.command, key.code), ..s }
    }
}

/// A key in Search mode: Enter returns to Normal mode and jumps to the next
/// match.
pub open spec fn search_key(s: AppView, key: Key) -> AppView {
    if key.code == KeyCode::Esc {
        AppView { mode: Mode::Normal, ..s }
    } else if key.code == KeyCode::Enter {
        searched(AppView { mode: Mode::Normal, ..s }, true)
    } else {
        AppView { search: edited(s.search, key.code), ..s }
    }
}

/// A key in whatever mode the client is in, and the text to send, if any.
pub open spec fn key_result(s: AppView, key: Key) -> (AppView, Option<Seq<char>>) {
    match s.mode {
        Mode::Normal => (normal_key(s, key), None),
        Mode::Insert => insert_key(s, key),
        Mode::Command => (command_key(s, key), None),
        Mode::Search => (search_key(s, key), None),
    }
}

/// `lines` holds a line by `me` with exactly this text: the server has
/// confirmed a message this client sent.
pub open spec fn confirmed(lines: Seq<ChatLineView>, me: Seq<char>, text: Seq<char>) -> bool {
    exists|i: int| 0 <= i < lines.len() && #[trigger] lines[i].user == me && lines[i].text == text
}

/// Keeps the texts that `lines` does not confirm.
pub open spec fn unconfirmed(lines: Seq<ChatLineView>, me: Seq<char>) -> spec_fn(Seq<char>) -> bool {
    |t: Seq<char>| !confirmed(lines, me, t)
}

/// Keeps the messages that are not pending.
pub open spec fn settled() -> spec_fn(MessageView) -> bool {
    |m: MessageView| !m.pending
}

/// A chat line from the server, as shown.
pub open spec fn server_message(l: ChatLineView) -> MessageView {
    MessageView { user: l.user, text: l.text, color: l.color, pending: false }
}

pub open spec fn server_messages(lines: Seq<ChatLineView>) -> Seq<MessageView> {
    lines.map_values(|l: ChatLineView| server_message(l))
}

/// Texts still waiting for the server, as shown.
pub open spec fn pending_messages(user: Seq<char>, color: Seq<char>, texts: Seq<Seq<char>>) -> Seq<MessageView> {
    texts.map_values(|t: Seq<char>| MessageView { user: user, text: t, color: color, pending: true })
}

/// A batch of new lines: the confirmed texts stop being pending; the chat
/// shows what was settled before, then the new lines, then what is still
/// pending. A cursor on the last message follows the end.
pub open spec fn with_lines(s: AppView, lines: Seq<ChatLineView>) -> AppView {
    let me = display_name(s.my_name);
    let still = s.pending_text.filter(unconfirmed(lines, me));
    let msgs = s.messages.filter(settled()) + server_messages(lines) + pending_messages(
        me,
        s.my_color,
        still,
    );
    let last = last_slot(msgs.len());
    let was_at_bottom = s.messages.len() == 0 || s.message_cursor + 1 >= s.messages.len();
    let c = if was_at_bottom {
        last
    } else {
        min_nat(s.message_cursor, last)
    };
    AppView {
        connected: true,
        pending_text: still,
        messages: msgs,
        message_cursor: c,
        scroll: c,
        ..s
    }
}

/// A players snapshot: participants, room and own identity replace the old
/// ones; a named room becomes the one room of the explorer.
pub open spec fn with_players(s: AppView, snap: PlayersSnapshotView) -> AppView {
    let base = AppView {
        connected: true,
        users: snap.players,
        room: snap.room,
        my_name: snap.me,
        my_color: snap.my_color,
        ..s
    };
    let r = if snap.room.name.len() > 0 {
        AppView { rooms: seq![snap.room.name], selected_room: 0, ..base }
    } else {
        base
    };
    AppView { selected_user: min_nat(s.selected_user, last_slot(snap.players.len())), ..r }
}

/// An error: offline, and the reason shown as a system message.
pub open spec fn with_error(s: AppView, reason: Seq<char>) -> AppView {
    AppView {
        connected: false,
        messages: s.messages.push(
            MessageView { user: "system"@, text: reason, color: "tomato"@, pending: false },
        ),
        ..s
    }
}

/// The state after one event from the poller.
pub open spec fn applied(s: AppView, e: ApiEventView) -> AppView {
    match e {
        ApiEventView::Messages(lines) => if lines.len() == 0 {
            AppView { connected: true, ..s }
        } else {
            with_lines(s, lines)
        },
        ApiEventView::Players(snap) => with_players(s, snap),
        ApiEventView::Error(reason) => with_error(s, reason),
    }
}

// ---------------------------------------------------------------------------
// The operations

impl App {
    /// The client as it starts: one system message, Normal mode, the explorer
    /// focused, polling every 2000 ms.
    pub fn new() -> (r: App)
        ensures
            r@ == initial_view(),
    {
        let mut messages: Vec<Message> = Vec::new();
        messages.push(
            Message {
                user: owned("system"),
                text: owned("RosaClient started"),
                color: owned("skyblue"),
                pending: false,
            },
        );
        let r = App {
            rooms: Vec::new(),
            selected_room: 0,
            users: Vec::new(),
            selected_user: 0,
            room: RoomInfo::default(),
            explorer_focus: ExplorerFocus::Rooms,
            messages,
            message_cursor: 0,
            pending_text: Vec::new(),
            my_name: String::new(),
            my_color: String::new(),
            input: String::new(),
            url: String::new(),
            command: String::new(),
            search: String::new(),
            mode: Mode::Normal,
            panel: Panel::Explorer,
            connected: false,
            running: true,
            pending_g: false,
            pending_d: false,
            pending_ctrl_w: false,
            scroll: 0,
            poll_interval_ms: 2000,
        };
        assert(r@ =~= initial_view());
        r
    }

    /// The name this client's own messages are shown under.
    pub fn display_name(&self) -> (r: String)
        ensures
            r@ == display_name(self.my_name@),
    {
        if self.my_name.as_str().is_empty() {
            owned("me")
        } else {
            self.my_name.clone()
        }
    }

    /// Enters Insert mode with the terminal focused.
    pub fn enter_insert(&mut self)
        ensures
            final(self)@ == (AppView { panel: Panel::Terminal, mode: Mode::Insert, ..old(self)@ }),
    {
        self.panel = Panel::Terminal;
        self.mode = Mode::Insert;
    }

    pub fn cursor_down(&mut self, step: usize)
        ensures
            final(self)@ == moved_down(old(self)@, step as nat),
    {
        match self.panel {
            Panel::Explorer => match self.explorer_focus {
                ExplorerFocus::Rooms => {
                    let last = last_index(self.rooms.len());
                    self.selected_room = capped_add(self.selected_room, step, last);
                },
                ExplorerFocus::Users => {
                    let last = last_index(self.users.len());
                    self.selected_user = capped_add(self.selected_user, step, last);
                },
            },
            Panel::Chat => {
                let last = last_index(self.messages.len());
                self.message_cursor = capped_add(self.message_cursor, step, last);
                self.scroll = self.message_cursor;
            },
            _ => {},
        }
    }

    pub fn cursor_up(&mut self, step: usize)
        ensures
            final(self)@ == moved_up(old(self)@, step as nat),
    {
        match self.panel {
            Panel::Explorer => match self.explorer_focus {
                ExplorerFocus::Rooms => {
                    self.selected_room = self.selected_room.saturating_sub(step);
                },
                ExplorerFocus::Users => {
                    self.selected_user = self.selected_user.saturating_sub(step);
                },
            },
            Panel::Chat => {
                self.message_cursor = self.message_cursor.saturating_sub(step);
                self.scroll = self.message_cursor;
            },
            _ => {},
        }
    }

    pub fn goto_top(&mut self)
        ensures
            final(self)@ == at_top(old(self)@),
    {
        match self.panel {
            Panel::Explorer => match self.explorer_focus {
                ExplorerFocus::Rooms => self.selected_room = 0,
                ExplorerFocus::Users => self.selected_user = 0,
            },
            Panel::Chat => {
                self.message_cursor = 0;
                self.scroll = 0;
            },
            _ => {},
        }
    }

    /// `x` / `dd`: removes the message under the chat cursor (only from this
    /// display); a pending one is forgotten too.
    pub fn delete_selected(&mut self)
        ensures
            final(self)@ == deleted(old(self)@),
    {
        if self.panel == Panel::Chat && self.message_cursor < self.messages.len() {
            let ghost before = self.messages@;
            let removed = self.messages.remove(self.message_cursor);
            assert(messages_view(self.messages@) =~= messages_view(before).remove(
                self.message_cursor as int,
            ));
            if removed.pending {
                self.pending_text = without_text(&self.pending_text, removed.text.as_str());
            }
            let last = last_index(self.messages.len());
            if self.message_cursor > last {
                self.message_cursor = last;
            }
            self.scroll = self.message_cursor;
        }
    }

    /// Whether the message at `index` matches the lowercased `query`.
    fn message_matches(&self, index: usize, query: &str) -> (r: bool)
        requires
            index < self.messages.len(),
        ensures
            r == matches_query(self@.messages[index as int], query@),
    {
        let m = &self.messages[index];
        let text = to_lowercase(m.text.as_str());
        if contains_text(text.as_str(), query) {
            return true;
        }
        let user = to_lowercase(m.user.as_str());
        contains_text(user.as_str(), query)
    }

    /// `n` (`forward`) / `N`: jumps to the next / previous message matching
    /// the search text, regardless of case.
    pub fn search_jump(&mut self, forward: bool)
        ensures
            final(self)@ == searched(old(self)@, forward),
    {
        if self.search.as_str().is_empty() || self.messages.len() == 0 {
            return;
        }
        let ghost s = self@;
        let len = self.messages.len();
        let query = to_lowercase(self.search.as_str());
        let mut k: usize = 0;
        while k < len
            invariant
                s == self@,
                s == old(self)@,
                s.search.len() > 0,
                len == self.messages.len(),
                len > 0,
                query@ == lowercase_of(s.search),
                k <= len,
                forall|o: nat|
                    1 <= o <= k ==> !matches_query(
                        #[trigger] s.messages[probe(s.message_cursor, len as nat, o, forward) as int],
                        query@,
                    ),
            decreases len - k,
        {
            let offset = k + 1;
            let index = probe_index(self.message_cursor, len, offset, forward);
            if self.message_matches(index, query.as_str()) {
                proof {
                    assert(first_hit(s, query@, forward, offset as nat));
                    let o = choose|o: nat| first_hit(s, query@, forward, o);
                    lemma_first_hit_unique(s, query@, forward, o, offset as nat);
                }
                self.message_cursor = index;
                self.scroll = index;
                self.panel = Panel::Chat;
                return;
            }
            k = k + 1;
        }
        proof {
            assert forall|o: nat| !first_hit(s, query@, forward, o) by {
                if 1 <= o <= len {
                    assert(!matches_query(
                        s.messages[probe(s.message_cursor, len as nat, o, forward) as int],
                        query@,
                    ));
                }
            }
        }
    }

    /// Takes in one event from the poller.
    pub fn apply_event(&mut self, event: ApiEvent)
        ensures
            final(self)@ == applied(old(self)@, event@),
    {
        match event {
            ApiEvent::Messages(lines) => {
                self.connected = true;
                if lines.len() > 0 {
                    self.take_lines(&lines);
                }
            },
            ApiEvent::Players(snapshot) => {
                let PlayersSnapshot { players, room, me, my_color } = snapshot;
                self.connected = true;
                self.users = players;
                self.room = room;
                self.my_name = me;
                self.my_color = my_color;
                if !self.room.name.as_str().is_empty() {
                    let mut rooms: Vec<Room> = Vec::new();
                    rooms.push(Room { name: self.room.name.clone() });
                    self.rooms = rooms;
                    self.selected_room = 0;
                    assert(rooms_view(self.rooms@) =~= seq![self.room.name@]);
                }
                let last = last_index(self.users.len());
                if self.selected_user > last {
                    self.selected_user = last;
                }
            },
            ApiEvent::Error(reason) => {
                self.connected = false;
                let ghost before = self.messages@;
                self.messages.push(
                    Message {
                        user: owned("system"),
                        text: reason,
                        color: owned("tomato"),
                        pending: false,
                    },
                );
                assert(messages_view(self.messages@) =~= messages_view(before).push(
                    self.messages@.last()@,
                ));
            },
        }
    }

    fn take_lines(&mut self, lines: &Vec<ChatLine>)
        requires
            lines.len() > 0,
            old(self).connected,
        ensures
            final(self)@ == with_lines(old(self)@, lines_view(lines@)),
    {
        let ghost s = self@;
        let was_at_bottom = self.messages.len() == 0 || self.message_cursor >= self.messages.len()
            - 1;
        let me = self.display_name();
        let still = unconfirmed_texts(&self.pending_text, lines, me.as_str());
        let mut kept = settled_messages(&self.messages);
        append_server_lines(&mut kept, lines);
        append_pending(&mut kept, &still, &me, &self.my_color);
        self.pending_text = still;
        self.messages = kept;
        let last = last_index(self.messages.len());
        if was_at_bottom || self.message_cursor > last {
            self.message_cursor = last;
        }
        self.scroll = self.message_cursor;
        assert(self@ =~= with_lines(s, lines_view(lines@)));
    }

    /// Applies one key press, in whatever mode; returns the text to send when
    /// Enter sends a message.
    pub fn handle_key(&mut self, key: Key) -> (cmd: Option<ApiCommand>)
        ensures
            (final(self)@, command_view(cmd)) == key_result(old(self)@, key),
    {
        match self.mode {
            Mode::Normal => {
                self.normal_key(key);
                None
            },
            Mode::Insert => self.insert_key(key),
            Mode::Command => {
                self.command_key(key);
                None
            },
            Mode::Search => {
                self.search_key(key);
                None
            },
        }
    }

    pub fn normal_key(&mut self, key: Key)
        ensures
            final(self)@ == normal_key(old(self)@, key),
    {
        if self.pending_ctrl_w {
            self.panel = window_panel(self.panel, key.code);
            self.pending_ctrl_w = false;
            return;
        }
        if self.pending_g {
            if key.code == KeyCode::Char('g') {
                self.goto_top();
            }
            self.pending_g = false;
            return;
        }
        if self.pending_d {
            if key.code == KeyCode::Char('d') {
                self.delete_selected();
            }
            self.pending_d = false;
            return;
        }
        if key.ctrl {
            if key.code == KeyCode::Char('w') {
                self.pending_ctrl_w = true;
                return;
            } else if key.code == KeyCode::Char('d') {
                self.cursor_down(8);
                return;
            } else if key.code == KeyCode::Char('u') {
                self.cursor_up(8);
                return;
            } else if key.code == KeyCode::Char('f') {
                self.cursor_down(16);
                return;
            } else if key.code == KeyCode::Char('b') {
                self.cursor_up(16);
                return;
            }
        }
        self.plain_key(key.code);
    }

    fn plain_key(&mut self, code: KeyCode)
        ensures
            final(self)@ == plain_key(old(self)@, code),
    {
        match code {
            KeyCode::Char(c) => {
                if c == 'q' {
                    self.running = false;
                } else if c == 'i' || c == 'a' || c == 'A' || c == 'I' || c == 'o' || c == 'O' {
                    self.enter_insert();
                } else if c == ':' {
                    self.command = String::new();
                    self.mode = Mode::Command;
                } else if c == '/' {
                    self.search = String::new();
                    self.mode = Mode::Search;
                } else if c == 'n' {
                    self.search_jump(true);
                } else if c == 'N' {
                    self.search_jump(false);
                } else if c == 'd' {
                    self.pending_d = true;
                } else if c == 'x' {
                    self.delete_selected();
                } else if c == 'g' {
                    self.pending_g = true;
                } else if c == 'G' {
                    self.goto_bottom();
                } else if c == 'j' {
                    self.cursor_down(1);
                } else if c == 'k' {
                    self.cursor_up(1);
                } else if c == 'h' {
                    if self.panel == Panel::Explorer {
                        self.explorer_focus = ExplorerFocus::Rooms;
                    }
                } else if c == 'l' {
                    if self.panel == Panel::Explorer {
                        self.explorer_focus = ExplorerFocus::Users;
                    }
                }
            },
            KeyCode::Tab => {
                self.panel = panel_after(self.panel);
            },
            KeyCode::BackTab => {
                self.panel = panel_before(self.panel);
            },
            KeyCode::Down => {
                self.cursor_down(1);
            },
            KeyCode::Up => {
                self.cursor_up(1);
            },
            KeyCode::Left => {
                if self.panel == Panel::Explorer {
                    self.explorer_focus = ExplorerFocus::Rooms;
                }
            },
            KeyCode::Right => {
                if self.panel == Panel::Explorer {
                    self.explorer_focus = ExplorerFocus::Users;
                }
            },
            KeyCode::Esc => {
                self.pending_g = false;
                self.pending_d = false;
                self.pending_ctrl_w = false;
                self.mode = Mode::Normal;
            },
            _ => {},
        }
    }

    pub fn insert_key(&mut self, key: Key) -> (cmd: Option<ApiCommand>)
        ensures
            (final(self)@, command_view(cmd)) == insert_key(old(self)@, key),
    {
        match key.code {
            KeyCode::Esc => {
                self.mode = Mode::Normal;
                self.input = String::new();
                None
            },
            KeyCode::Enter => {
                if !self.input.as_str().is_empty() {
                    let text = self.input.clone();
                    self.pending_text.push(text.clone());
                    let user = self.display_name();
                    let color = self.my_color.clone();
                    self.messages.push(Message { user, text: text.clone(), color, pending: true });
                    self.message_cursor = last_index(self.messages.len());
                    self.input = String::new();
                    proof {
                        let s = old(self)@;
                        assert(self@.messages =~= with_sent(s, s.input).messages);
                        assert(self@.pending_text =~= with_sent(s, s.input).pending_text);
                    }
                    Some(ApiCommand::Send(text))
                } else {
                    None
                }
            },
            _ => {
                edit_line(&mut self.input, key.code);
                None
            },
        }
    }

    pub fn command_key(&mut self, key: Key)
        ensures
            final(self)@ == command_key(old(self)@, key),
    {
        match key.code {
            KeyCode::Esc => {
                self.mode = Mode::Normal;
            },
            KeyCode::Enter => {
                let c = self.command.as_str();
                if same_text(c, "q") || same_text(c, "quit") {
                    self.running = false;
                } else if same_text(c, "clear") {
                    self.messages = Vec::new();
                    self.message_cursor = 0;
                    assert(messages_view(self.messages@) =~= Seq::<MessageView>::empty());
                }
                self.command = String::new();
                self.mode = Mode::Normal;
            },
            _ => {
                edit_line(&mut self.command, key.code);
            },
        }
    }

    pub fn search_key(&mut self, key: Key)
        ensures
            final(self)@ == search_key(old(self)@, key),
    {
        match key.code {
            KeyCode::Esc => {
                self.mode = Mode::Normal;
            },
            KeyCode::Enter => {
                self.mode = Mode::Normal;
                self.search_jump(true);
            },
            _ => {
                edit_line(&mut self.search, key.code);
            },
        }
    }

    pub fn goto_bottom(&mut self)
        ensures
            final(self)@ == at_bottom(old(self)@),
    {
        match self.panel {
            Panel::Explorer => match self.explorer_focus {
                ExplorerFocus::Rooms => {
                    self.selected_room = last_index(self.rooms.len());
                },
                ExplorerFocus::Users => {
                    self.selected_user = last_index(self.users.len());
                },
            },
            Panel::Chat => {
                self.message_cursor = last_index(self.messages.len());
                self.scroll = self.message_cursor;
            },
            _ => {},
        }
    }
}

/// Whether `filter` keeps the entry at `i` on top of what it kept of the first `i`.
pub proof fn lemma_filter_take<A>(s: Seq<A>, pred: spec_fn(A) -> bool, i: int)
    requires
        0 <= i < s.len(),
    ensures
        s.take(i + 1).filter(pred) == (if pred(s[i]) {
            s.take(i).filter(pred).push(s[i])
        } else {
            s.take(i).filter(pred)
        }),
{
    reveal(Seq::filter);
    assert(s.take(i + 1).drop_last() =~= s.take(i));
    assert(s.take(i + 1).last() == s[i]);
}

/// The texts of `v` other than `text`, in order.
pub fn without_text(v: &Vec<String>, text: &str) -> (r: Vec<String>)
    ensures
        texts_view(r@) == texts_view(v@).filter(other_than(text@)),
{
    let ghost tv = texts_view(v@);
    let mut out: Vec<String> = Vec::new();
    let mut i: usize = 0;
    assert(tv.take(0) =~= Seq::<Seq<char>>::empty());
    proof {
        reveal(Seq::filter);
    }
    assert(texts_view(out@) =~= tv.take(0).filter(other_than(text@)));
    while i < v.len()
        invariant
            i <= v.len(),
            tv == texts_view(v@),
            texts_view(out@) == tv.take(i as int).filter(other_than(text@)),
        decreases v.len() - i,
    {
        proof {
            lemma_filter_take(tv, other_than(text@), i as int);
        }
        if !same_text(v[i].as_str(), text) {
            let ghost prev = out@;
            out.push(v[i].clone());
            assert(texts_view(out@) =~= texts_view(prev).push(tv[i as int]));
        }
        i = i + 1;
    }
    assert(tv.take(v.len() as int) =~= tv);
    out
}

/// `((cursor + offset) % len)` forward, `((cursor + len - offset) % len)`
/// backward, computed without overflow.
pub fn probe_index(cursor: usize, len: usize, offset: usize, forward: bool) -> (r: usize)
    requires
        0 < len,
        1 <= offset <= len,
    ensures
        r == probe(cursor as nat, len as nat, offset as nat, forward),
        r < len,
{
    let c = cursor % len;
    let ghost q = cursor as int / len as int;
    proof {
        lemma_fundamental_div_mod(cursor as int, len as int);
    }
    if forward {
        proof {
            lemma_mod_multiples_vanish(q, c + offset, len as int);
            assert(cursor + offset == len * q + (c + offset));
        }
        if offset < len - c {
            proof {
                lemma_small_mod((c + offset) as nat, len as nat);
            }
            c + offset
        } else {
            proof {
                lemma_mod_add_multiples_vanish(c + offset - len, len as int);
                lemma_small_mod((c + offset - len) as nat, len as nat);
            }
            offset - (len - c)
        }
    } else {
        proof {
            lemma_mod_multiples_vanish(q, c + len - offset, len as int);
            assert(cursor + len - offset == len * q + (c + len - offset));
        }
        if offset <= c {
            proof {
                lemma_mod_add_multiples_vanish(c - offset, len as int);
                lemma_small_mod((c - offset) as nat, len as nat);
            }
            c - offset
        } else {
            proof {
                lemma_small_mod((c + len - offset) as nat, len as nat);
            }
            c + (len - offset)
        }
    }
}

/// At most one step is the first that hits.
pub proof fn lemma_first_hit_unique(s: AppView, query: Seq<char>, forward: bool, a: nat, b: nat)
    requires
        first_hit(s, query, forward, a),
        first_hit(s, query, forward, b),
    ensures
        a == b,
{
    if a < b {
        assert(!matches_query(
            s.messages[probe(s.message_cursor, s.messages.len(), a, forward) as int],
            query,
        ));
    } else if b < a {
        assert(!matches_query(
            s.messages[probe(s.message_cursor, s.messages.len(), b, forward) as int],
            query,
        ));
    }
}

/// Whether `lines` confirms `text` as sent by `me`.
pub fn is_confirmed(lines: &Vec<ChatLine>, me: &str, text: &str) -> (r: bool)
    ensures
        r == confirmed(lines_view(lines@), me@, text@),
{
    let ghost lv = lines_view(lines@);
    let mut i: usize = 0;
    while i < lines.len()
        invariant
            i <= lines.len(),
            lv == lines_view(lines@),
            forall|j: int| 0 <= j < i ==> !(#[trigger] lv[j].user == me@ && lv[j].text == text@),
        decreases lines.len() - i,
    {
        if same_text(lines[i].user.as_str(), me) && same_text(lines[i].text.as_str(), text) {
            assert(lv[i as int].user == me@ && lv[i as int].text == text@);
            return true;
        }
        i = i + 1;
    }
    false
}

/// The texts of `pending` that `lines` does not confirm, in order.
pub fn unconfirmed_texts(pending: &Vec<String>, lines: &Vec<ChatLine>, me: &str) -> (r: Vec<String>)
    ensures
        texts_view(r@) == texts_view(pending@).filter(unconfirmed(lines_view(lines@), me@)),
{
    let ghost tv = texts_view(pending@);
    let ghost pred = unconfirmed(lines_view(lines@), me@);
    let mut out: Vec<String> = Vec::new();
    let mut i: usize = 0;
    proof {
        reveal(Seq::filter);
    }
    assert(texts_view(out@) =~= tv.take(0).filter(pred));
    while i < pending.len()
        invariant
            i <= pending.len(),
            tv == texts_view(pending@),
            pred == unconfirmed(lines_view(lines@), me@),
            texts_view(out@) == tv.take(i as int).filter(pred),
        decreases pending.len() - i,
    {
        proof {
            lemma_filter_take(tv, pred, i as int);
        }
        if !is_confirmed(lines, me, pending[i].as_str()) {
            let ghost prev = out@;
            out.push(pending[i].clone());
            assert(texts_view(out@) =~= texts_view(prev).push(tv[i as int]));
        }
        i = i + 1;
    }
    assert(tv.take(pending.len() as int) =~= tv);
    out
}

/// A copy of a message.
pub fn copy_message(m: &Message) -> (r: Message)
    ensures
        r@ == m@,
{
    Message { user: m.user.clone(), text: m.text.clone(), color: m.color.clone(), pending: m.pending }
}

/// The messages that are not pending, in order.
pub fn settled_messages(messages: &Vec<Message>) -> (r: Vec<Message>)
    ensures
        messages_view(r@) == messages_view(messages@).filter(settled()),
{
    let ghost mv = messages_view(messages@);
    let mut out: Vec<Message> = Vec::new();
    let mut i: usize = 0;
    proof {
        reveal(Seq::filter);
    }
    assert(messages_view(out@) =~= mv.take(0).filter(settled()));
    while i < messages.len()
        invariant
            i <= messages.len(),
            mv == messages_view(messages@),
            messages_view(out@) == mv.take(i as int).filter(settled()),
        decreases messages.len() - i,
    {
        proof {
            lemma_filter_take(mv, settled(), i as int);
        }
        if !messages[i].pending {
            let ghost prev = out@;
            out.push(copy_message(&messages[i]));
            assert(messages_view(out@) =~= messages_view(prev).push(mv[i as int]));
        }
        i = i + 1;
    }
    assert(mv.take(messages.len() as int) =~= mv);
    out
}

/// Appends the lines, as settled messages.
pub fn append_server_lines(out: &mut Vec<Message>, lines: &Vec<ChatLine>)
    ensures
        messages_view(final(out)@) == messages_view(old(out)@) + server_messages(lines_view(lines@)),
{
    let ghost start = messages_view(out@);
    let ghost lv = lines_view(lines@);
    let mut i: usize = 0;
    assert(messages_view(out@) =~= start + server_messages(lv.take(0)));
    while i < lines.len()
        invariant
            i <= lines.len(),
            lv == lines_view(lines@),
            messages_view(out@) == start + server_messages(lv.take(i as int)),
        decreases lines.len() - i,
    {
        let ghost prev = out@;
        out.push(
            Message {
                user: lines[i].user.clone(),
                text: lines[i].text.clone(),
                color: lines[i].color.clone(),
                pending: false,
            },
        );
        assert(lv.take(i + 1) =~= lv.take(i as int).push(lv[i as int]));
        assert(messages_view(out@) =~= messages_view(prev).push(server_message(lv[i as int])));
        assert(server_messages(lv.take(i + 1)) =~= server_messages(lv.take(i as int)).push(
            server_message(lv[i as int]),
        ));
        i = i + 1;
    }
    assert(lv.take(lines.len() as int) =~= lv);
}

/// Appends each text as a pending message by `user` in `color`.
pub fn append_pending(out: &mut Vec<Message>, texts: &Vec<String>, user: &String, color: &String)
    ensures
        messages_view(final(out)@) == messages_view(old(out)@) + pending_messages(
            user@,
            color@,
            texts_view(texts@),
        ),
{
    let ghost start = messages_view(out@);
    let ghost tv = texts_view(texts@);
    let mut i: usize = 0;
    assert(messages_view(out@) =~= start + pending_messages(user@, color@, tv.take(0)));
    while i < texts.len()
        invariant
            i <= texts.len(),
            tv == texts_view(texts@),
            messages_view(out@) == start + pending_messages(user@, color@, tv.take(i as int)),
        decreases texts.len() - i,
    {
        let ghost prev = out@;
        out.push(
            Message {
                user: user.clone(),
                text: texts[i].clone(),
                color: color.clone(),
                pending: true,
            },
        );
        assert(tv.take(i + 1) =~= tv.take(i as int).push(tv[i as int]));
        assert(messages_view(out@) =~= messages_view(prev).push(out@.last()@));
        assert(pending_messages(user@, color@, tv.take(i + 1)) =~= pending_messages(
            user@,
            color@,
            tv.take(i as int),
        ).push(out@.last()@));
        i = i + 1;
    }
    assert(tv.take(texts.len() as int) =~= tv);
}

/// Backspace and character keys on a line being typed.
pub fn edit_line(line: &mut String, code: KeyCode)
    ensures
        final(line)@ == edited(old(line)@, code),
{
    match code {
        KeyCode::Backspace => {
            pop_char(line);
        },
        KeyCode::Char(c) => {
            push_char(line, c);
        },
        _ => {},
    }
}

pub fn panel_after(p: Panel) -> (r: Panel)
    ensures
        r == next_panel(p),
{
    match p {
        Panel::Explorer => Panel::Chat,
        Panel::Chat => Panel::Context,
        Panel::Context => Panel::Terminal,
        Panel::Terminal => Panel::Explorer,
    }
}

pub fn panel_before(p: Panel) -> (r: Panel)
    ensures
        r == prev_panel(p),
{
    match p {
        Panel::Explorer => Panel::Terminal,
        Panel::Chat => Panel::Explorer,
        Panel::Context => Panel::Chat,
        Panel::Terminal => Panel::Context,
    }
}

pub fn window_panel(p: Panel, code: KeyCode) -> (r: Panel)
    ensures
        r == window_move(p, code),
{
    if code == KeyCode::Char('h') {
        match p {
            Panel::Chat => Panel::Explorer,
            Panel::Terminal => Panel::Context,
            other => other,
        }
    } else if code == KeyCode::Char('l') {
        match p {
            Panel::Explorer => Panel::Chat,
            Panel::Context => Panel::Terminal,
            other => other,
        }
    } else if code == KeyCode::Char('j') {
        match p {
            Panel::Explorer => Panel::Context,
            Panel::Chat => Panel::Terminal,
            other => other,
        }
    } else if code == KeyCode::Char('k') {
        match p {
            Panel::Context => Panel::Explorer,
            Panel::Terminal => Panel::Chat,
            other => other,
        }
    } else {
        p
    }
}

/// `len.saturating_sub(1)`.
pub fn last_index(len: usize) -> (r: usize)
    ensures
        r == last_slot(len as nat),
{
    if len == 0 {
        0
    } else {
        len - 1
    }
}

/// `(a + step).min(last)`, computed without overflow.
pub fn capped_add(a: usize, step: usize, last: usize) -> (r: usize)
    ensures
        r == min_nat((a + step) as nat, last as nat),
{
    if a >= last || step >= last - a {
        last
    } else {
        a + step
    }
}

} // verus!
