//! What the screen shows of the state: colours, badges, labels, selections.
use vstd::prelude::*;

use crate::api::{players_view, PlayerInfo, PlayerInfoView};
use crate::app::{App, Mode, Panel};
use crate::text::{chars_of, same_text};

verus! {

/// A 24-bit colour.
#[derive(Clone, Copy, PartialEq, Eq, Structural, Debug)]
pub struct Rgb {
    pub r: u8,
    pub g: u8,
    pub b: u8,
}

/// The theme's text colour, used for names without a colour of their own.
pub open spec fn text_rgb() -> Rgb {
    Rgb { r: 205, g: 214, b: 244 }
}

/// The value of a hexadecimal digit (either case).
pub open spec fn hex_digit(c: char) -> Option<nat> {
    let v = c as u32;
    if 48 <= v <= 57 {
        Some((v - 48) as nat)
    } else if 97 <= v <= 102 {
        Some((v - 87) as nat)
    } else if 65 <= v <= 70 {
        Some((v - 55) as nat)
    } else {
        None
    }
}

/// Each character twice: the 3-digit shorthand `abc` stands for `aabbcc`.
pub open spec fn doubled(s: Seq<char>) -> Seq<char> {
    Seq::new(2 * s.len(), |i: int| s[i / 2])
}

/// All characters of `s` from `from` on are hex digits.
pub open spec fn all_hex(s: Seq<char>, from: int) -> bool {
    forall|i: int| from <= i < s.len() ==> (#[trigger] hex_digit(s[i])) is Some
}

/// `u32::from_str_radix(s, 16)` on six characters, as its six hex digits:
/// six digits, or a `+` sign and five digits (a leading 0).
pub open spec fn hex6_digits(s: Seq<char>) -> Option<Seq<nat>> {
    if s.len() != 6 {
        None
    } else if s[0] == '+' && all_hex(s, 1) {
        Some(seq![0nat].add(Seq::new(5, |i: int| hex_digit(s[i + 1])->0)))
    } else if all_hex(s, 0) {
        Some(Seq::new(6, |i: int| hex_digit(s[i])->0))
    } else {
        None
    }
}

/// The named colours of the chat.
pub open spec fn named_rgb(name: Seq<char>) -> Rgb {
    if name == "white"@ {
        Rgb { r: 205, g: 214, b: 244 }
    } else if name == "tomato"@ {
        Rgb { r: 243, g: 139, b: 168 }
    } else if name == "lime"@ {
        Rgb { r: 166, g: 227, b: 161 }
    } else if name == "tan"@ {
        Rgb { r: 250, g: 179, b: 135 }
    } else if name == "violet"@ {
        Rgb { r: 203, g: 166, b: 247 }
    } else if name == "pink"@ {
        Rgb { r: 245, g: 194, b: 231 }
    } else if name == "skyblue"@ {
        Rgb { r: 137, g: 220, b: 235 }
    } else {
        text_rgb()
    }
}

/// The digits that `#rrggbb` or `#rgb` give, if it is one.
pub open spec fn hex_color_digits(name: Seq<char>) -> Option<Seq<nat>> {
    if name.len() > 0 && name[0] == '#' {
        let h = name.drop_first();
        let e = if h.len() == 3 {
            doubled(h)
        } else {
            h
        };
        hex6_digits(e)
    } else {
        None
    }
}

/// The colour a name in the chat is drawn in: `#rrggbb`, `#rgb`, one of the
/// named colours, or the text colour.
pub open spec fn color_of(name: Seq<char>) -> Rgb {
    match hex_color_digits(name) {
        Some(d) => Rgb {
            r: (16 * d[0] + d[1]) as u8,
            g: (16 * d[2] + d[3]) as u8,
            b: (16 * d[4] + d[5]) as u8,
        },
        None => named_rgb(name),
    }
}

/// The value of one hex digit.
pub fn hex_digit_value(c: char) -> (r: Option<u8>)
    ensures
        match hex_digit(c) {
            Some(v) => r == Some(v as u8),
            None => r is None,
        },
{
    let v = c as u32;
    if 48 <= v && v <= 57 {
        Some((v - 48) as u8)
    } else if 97 <= v && v <= 102 {
        Some((v - 87) as u8)
    } else if 65 <= v && v <= 70 {
        Some((v - 55) as u8)
    } else {
        None
    }
}

/// The six hex digits of `s`, as `hex6_digits` says.
fn six_digits(s: &Vec<char>) -> (r: Option<Vec<u8>>)
    ensures
        match hex6_digits(s@) {
            Some(d) => r matches Some(v) && v@.len() == 6 && forall|i: int|
                0 <= i < 6 ==> v@[i] as nat == #[trigger] d[i] && v@[i] < 16,
            None => r is None,
        },
{
    if s.len() != 6 {
        return None;
    }
    let mut out: Vec<u8> = Vec::new();
    let start: usize = if s[0] == '+' {
        out.push(0);
        1
    } else {
        0
    };
    let mut i: usize = start;
    while i < 6
        invariant
            s@.len() == 6,
            start == (if s@[0] == '+' { 1usize } else { 0usize }),
            start <= i <= 6,
            out@.len() == i,
            start == 1 ==> out@[0] == 0,
            forall|j: int| start <= j < i ==> (#[trigger] hex_digit(s@[j])) is Some,
            forall|j: int| start <= j < i ==> out@[j] as nat == hex_digit(s@[j])->0,
            forall|j: int| 0 <= j < i ==> out@[j] < 16,
        decreases 6 - i,
    {
        match hex_digit_value(s[i]) {
            Some(v) => out.push(v),
            None => {
                proof {
                    assert(!all_hex(s@, start as int));
                    if start == 1 {
                        assert(!all_hex(s@, 0)) by {
                            assert(hex_digit(s@[0]) is None);
                        }
                    }
                }
                return None;
            },
        }
        i = i + 1;
    }
    proof {
        assert(all_hex(s@, start as int));
        if start == 0 {
            let d = Seq::new(6, |k: int| hex_digit(s@[k])->0);
            assert(hex6_digits(s@) == Some(d));
        } else {
            let d = seq![0nat].add(Seq::new(5, |k: int| hex_digit(s@[k + 1])->0));
            assert(hex6_digits(s@) == Some(d));
            assert forall|k: int| 0 <= k < 6 implies out@[k] as nat == #[trigger] d[k] by {
                if k > 0 {
                    assert(d[k] == hex_digit(s@[k])->0);
                }
            }
        }
    }
    Some(out)
}

/// The colour a chat name is drawn in (`#rrggbb`, `#rgb`, a named colour, or
/// the text colour).
pub fn chat_color(name: &str) -> (r: Rgb)
    ensures
        r == color_of(name@),
{
    let cs = chars_of(name);
    if cs.len() > 0 && cs[0] == '#' {
        let mut e: Vec<char> = Vec::new();
        let h_len = cs.len() - 1;
        let ghost h = cs@.drop_first();
        if h_len == 3 {
            let mut i: usize = 1;
            while i < cs.len()
                invariant
                    cs@ == name@,
                    cs@.len() == 4,
                    h == cs@.drop_first(),
                    1 <= i <= 4,
                    e@ =~= doubled(h).take(2 * (i - 1)),
                decreases 4 - i,
            {
                e.push(cs[i]);
                e.push(cs[i]);
                i = i + 1;
            }
            assert(e@ =~= doubled(h));
        } else {
            let mut i: usize = 1;
            while i < cs.len()
                invariant
                    cs@ == name@,
                    cs@.len() > 0,
                    h == cs@.drop_first(),
                    1 <= i <= cs@.len(),
                    e@ =~= h.take(i - 1),
                decreases cs.len() - i,
            {
                e.push(cs[i]);
                i = i + 1;
            }
            assert(e@ =~= h);
        }
        match six_digits(&e) {
            Some(d) => {
                let ghost ds = hex6_digits(e@)->0;
                assert(ds[0] == d@[0] as nat && ds[1] == d@[1] as nat && ds[2] == d@[2] as nat);
                assert(ds[3] == d@[3] as nat && ds[4] == d@[4] as nat && ds[5] == d@[5] as nat);
                assert(hex_color_digits(name@) == hex6_digits(e@));
                return Rgb { r: 16 * d[0] + d[1], g: 16 * d[2] + d[3], b: 16 * d[4] + d[5] };
            },
            None => {},
        }
    }
    named_color(name)
}

fn named_color(name: &str) -> (r: Rgb)
    ensures
        r == named_rgb(name@),
{
    if same_text(name, "white") {
        Rgb { r: 205, g: 214, b: 244 }
    } else if same_text(name, "tomato") {
        Rgb { r: 243, g: 139, b: 168 }
    } else if same_text(name, "lime") {
        Rgb { r: 166, g: 227, b: 161 }
    } else if same_text(name, "tan") {
        Rgb { r: 250, g: 179, b: 135 }
    } else if same_text(name, "violet") {
        Rgb { r: 203, g: 166, b: 247 }
    } else if same_text(name, "pink") {
        Rgb { r: 245, g: 194, b: 231 }
    } else if same_text(name, "skyblue") {
        Rgb { r: 137, g: 220, b: 235 }
    } else {
        Rgb { r: 205, g: 214, b: 244 }
    }
}

/// How a participant is marked in the users list.
#[derive(Clone, Copy, PartialEq, Eq, Structural, Debug)]
pub enum UserBadge {
    Spectator,
    Dead,
    Cpu,
    Alive,
}

/// Spectators (job 観战者) first, then the dead, then CPU players.
pub open spec fn badge_of(p: PlayerInfoView) -> UserBadge {
    if p.job == "\u{89b3}\u{6218}\u{8005}"@ {
        UserBadge::Spectator
    } else if !p.alive {
        UserBadge::Dead
    } else if p.is_cpu {
        UserBadge::Cpu
    } else {
        UserBadge::Alive
    }
}

pub fn user_badge(p: &PlayerInfo) -> (r: UserBadge)
    ensures
        r == badge_of(p@),
{
    if same_text(p.job.as_str(), "\u{89b3}\u{6218}\u{8005}") {
        UserBadge::Spectator
    } else if !p.alive {
        UserBadge::Dead
    } else if p.is_cpu {
        UserBadge::Cpu
    } else {
        UserBadge::Alive
    }
}

/// The highlighted row of a list of `len` rows: the selection, kept on the
/// last row; none for an empty list.
pub fn list_selection(len: usize, selected: usize) -> (r: Option<usize>)
    ensures
        len == 0 ==> r is None,
        len > 0 ==> r == Some(if selected < len { selected } else { (len - 1) as usize }),
{
    if len == 0 {
        None
    } else if selected < len {
        Some(selected)
    } else {
        Some(len - 1)
    }
}

/// The number of living participants.
pub open spec fn alive_in(users: Seq<PlayerInfoView>) -> nat
    decreases users.len(),
{
    if users.len() == 0 {
        0
    } else {
        alive_in(users.drop_last()) + if users.last().alive {
            1nat
        } else {
            0nat
        }
    }
}

pub fn alive_count(users: &Vec<PlayerInfo>) -> (r: usize)
    ensures
        r == alive_in(players_view(users@)),
{
    let ghost pv = players_view(users@);
    let mut n: usize = 0;
    let mut i: usize = 0;
    assert(pv.take(0) =~= Seq::<PlayerInfoView>::empty());
    while i < users.len()
        invariant
            i <= users.len(),
            pv == players_view(users@),
            n == alive_in(pv.take(i as int)),
            n <= i,
        decreases users.len() - i,
    {
        assert(pv.take(i + 1).drop_last() =~= pv.take(i as int));
        if users[i].alive {
            n = n + 1;
        }
        i = i + 1;
    }
    assert(pv.take(users.len() as int) =~= pv);
    n
}

/// Whether the chat needs a scrollbar: more messages than rows inside the
/// panel's border.
pub fn needs_scrollbar(count: usize, height: u16) -> (r: bool)
    ensures
        r == (count > (if height >= 2 { height - 2 } else { 0 })),
{
    let inner: u16 = if height >= 2 { height - 2 } else { 0 };
    count > inner as usize
}

/// Whether the screen is large enough to draw anything (35 by 14 at least).
pub fn screen_fits(width: u16, height: u16) -> (r: bool)
    ensures
        r == (height >= 14 && width >= 35),
{
    !(height < 14 || width < 35)
}

/// The mode's name in the status bar.
pub fn mode_label(m: Mode) -> (r: &'static str)
    ensures
        r@ == match m {
            Mode::Normal => "NORMAL"@,
            Mode::Insert => "INSERT"@,
            Mode::Command => "COMMAND"@,
            Mode::Search => "SEARCH"@,
        },
{
    match m {
        Mode::Normal => "NORMAL",
        Mode::Insert => "INSERT",
        Mode::Command => "COMMAND",
        Mode::Search => "SEARCH",
    }
}

/// The panel's name in the status bar.
pub fn panel_label(p: Panel) -> (r: &'static str)
    ensures
        r@ == match p {
            Panel::Explorer => "explorer"@,
            Panel::Chat => "chat"@,
            Panel::Context => "context"@,
            Panel::Terminal => "terminal"@,
        },
{
    match p {
        Panel::Explorer => "explorer",
        Panel::Chat => "chat",
        Panel::Context => "context",
        Panel::Terminal => "terminal",
    }
}

/// Which line the terminal panel shows.
#[derive(Clone, Copy, PartialEq, Eq, Structural, Debug)]
pub enum Prompt {
    Command,
    Search,
    Input,
}

pub open spec fn prompt_of(m: Mode) -> Prompt {
    match m {
        Mode::Command => Prompt::Command,
        Mode::Search => Prompt::Search,
        _ => Prompt::Input,
    }
}

/// The terminal's prompt and the line after it: the command in Command mode,
/// the search text in Search mode, the message being typed otherwise.
pub fn terminal_line(app: &App) -> (r: (Prompt, String))
    ensures
        r.0 == prompt_of(app.mode),
        r.1@ == match app.mode {
            Mode::Command => app.command@,
            Mode::Search => app.search@,
            _ => app.input@,
        },
{
    match app.mode {
        Mode::Command => (Prompt::Command, app.command.clone()),
        Mode::Search => (Prompt::Search, app.search.clone()),
        _ => (Prompt::Input, app.input.clone()),
    }
}

/// The terminal shows a cursor while it is focused and something is typed.
pub fn terminal_cursor_shown(app: &App) -> (r: bool)
    ensures
        r == (app.panel == Panel::Terminal && app.mode != Mode::Normal),
{
    app.panel == Panel::Terminal && app.mode != Mode::Normal
}

/// A field of the context panel: the text, or `-` when it is empty.
pub fn or_dash(s: &str) -> (r: String)
    ensures
        r@ == (if s@.len() == 0 { "-"@ } else { s@ }),
{
    if s.is_empty() {
        crate::text::owned("-")
    } else {
        crate::text::owned(s)
    }
}

/// The room in the status bar: its name, or `no room`.
pub fn status_room(name: &str) -> (r: String)
    ensures
        r@ == (if name@.len() == 0 { "no room"@ } else { name@ }),
{
    if name.is_empty() {
        crate::text::owned("no room")
    } else {
        crate::text::owned(name)
    }
}

/// The connection state in the top bar and in the context panel.
pub fn connection_labels(connected: bool) -> (r: (&'static str, &'static str))
    ensures
        r.0@ == (if connected { "online"@ } else { "offline"@ }),
        r.1@ == (if connected { "\u{25cf} connected"@ } else { "\u{25cf} offline"@ }),
{
    if connected {
        ("online", "\u{25cf} connected")
    } else {
        ("offline", "\u{25cf} offline")
    }
}

} // verus!
