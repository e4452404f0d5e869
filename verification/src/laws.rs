//! Properties of the client that span its operations.
use vstd::arithmetic::div_mod::{
    lemma_fundamental_div_mod, lemma_mod_add_multiples_vanish, lemma_mod_multiples_vanish,
    lemma_small_mod,
};
use vstd::prelude::*;

use crate::api::ChatLineView;
use crate::app::{
    applied, at_bottom, at_top, confirmed, deleted, moved_down, moved_up, normal_key, plain_key, display_name, first_hit, initial_view, key_result, last_slot,
    matches_query, next_panel, other_than, pending_messages, probe, searched, server_messages, settled,
    unconfirmed, ApiEventView, AppView, Key, KeyCode, Mode, Panel,
};
use crate::display::{color_of, doubled, hex_color_digits, named_rgb, text_rgb};
use crate::text::lowercase_of;

verus! {

broadcast use vstd::seq_lib::group_filter_ensures;

/// Every cursor is on an entry of its list (or 0 for an empty list).
pub open spec fn cursors_in_range(s: AppView) -> bool {
    &&& s.message_cursor <= last_slot(s.messages.len())
    &&& s.selected_room <= last_slot(s.rooms.len())
    &&& s.selected_user <= last_slot(s.users.len())
}

/// The client starts with its cursors in range.
pub proof fn law_initial_cursors_in_range()
    ensures
        cursors_in_range(initial_view()),
{
}

proof fn lemma_probe_in_range(cursor: nat, len: nat, offset: nat, forward: bool)
    requires
        len > 0,
        offset <= len,
    ensures
        probe(cursor, len, offset, forward) < len,
{
}

proof fn lemma_searched_in_range(s: AppView, forward: bool)
    requires
        cursors_in_range(s),
    ensures
        cursors_in_range(searched(s, forward)),
{
    let query = lowercase_of(s.search);
    if s.search.len() != 0 && s.messages.len() != 0 && exists|o: nat| first_hit(s, query, forward, o) {
        let o = choose|o: nat| first_hit(s, query, forward, o);
        lemma_probe_in_range(s.message_cursor, s.messages.len(), o, forward);
    }
}

proof fn lemma_moves_in_range(s: AppView, step: nat)
    requires
        cursors_in_range(s),
    ensures
        cursors_in_range(moved_down(s, step)),
        cursors_in_range(moved_up(s, step)),
        cursors_in_range(at_top(s)),
        cursors_in_range(at_bottom(s)),
        cursors_in_range(deleted(s)),
{
}

proof fn lemma_normal_in_range(s: AppView, key: Key)
    requires
        cursors_in_range(s),
    ensures
        cursors_in_range(normal_key(s, key)),
{
    lemma_moves_in_range(s, 1);
    lemma_moves_in_range(s, 8);
    lemma_moves_in_range(s, 16);
    lemma_searched_in_range(s, true);
    lemma_searched_in_range(s, false);
    assert(cursors_in_range(plain_key(s, key.code)));
}

/// No key moves a cursor off its list.
pub proof fn law_keys_keep_cursors_in_range(s: AppView, key: Key)
    requires
        cursors_in_range(s),
    ensures
        cursors_in_range(key_result(s, key).0),
{
    match s.mode {
        Mode::Normal => lemma_normal_in_range(s, key),
        Mode::Insert => {},
        Mode::Command => {},
        Mode::Search => {
            lemma_searched_in_range(AppView { mode: Mode::Normal, ..s }, true);
        },
    }
}

/// No event from the poller moves a cursor off its list.
pub proof fn law_events_keep_cursors_in_range(s: AppView, e: ApiEventView)
    requires
        cursors_in_range(s),
    ensures
        cursors_in_range(applied(s, e)),
{
}

/// Esc always ends in Normal mode, whatever the mode before.
pub proof fn law_escape_returns_to_normal(s: AppView, ctrl: bool)
    ensures
        key_result(s, Key { code: KeyCode::Esc, ctrl }).0.mode == Mode::Normal,
        key_result(s, Key { code: KeyCode::Esc, ctrl }).1 is None,
{
}

/// In Normal mode with no key pending, Shift+Tab undoes Tab, and four Tabs
/// come back to the same panel.
pub proof fn law_tab_round_trip(s: AppView, ctrl: bool)
    requires
        s.mode == Mode::Normal,
        !s.pending_ctrl_w,
        !s.pending_g,
        !s.pending_d,
    ensures
        key_result(
            key_result(s, Key { code: KeyCode::Tab, ctrl }).0,
            Key { code: KeyCode::BackTab, ctrl },
        ).0 == s,
        next_panel(next_panel(next_panel(next_panel(s.panel)))) == s.panel,
{
    let t = key_result(s, Key { code: KeyCode::Tab, ctrl }).0;
    assert(t == AppView { panel: next_panel(s.panel), ..s });
    assert(key_result(t, Key { code: KeyCode::BackTab, ctrl }).0 =~= s);
}

/// Once a batch of lines arrives, no message shown as pending is one that the
/// batch confirms, and no confirmed text is still waiting: the sending mark of
/// a confirmed message goes away.
pub proof fn law_confirmed_messages_settle(s: AppView, lines: Seq<ChatLineView>)
    requires
        lines.len() > 0,
    ensures
        ({
            let t = applied(s, ApiEventView::Messages(lines));
            let me = display_name(s.my_name);
            &&& forall|i: int|
                0 <= i < t.messages.len() && (#[trigger] t.messages[i]).pending ==> !confirmed(
                    lines,
                    me,
                    t.messages[i].text,
                )
            &&& forall|i: int|
                0 <= i < t.pending_text.len() ==> !confirmed(lines, me, #[trigger] t.pending_text[i])
        }),
{
    let me = display_name(s.my_name);
    let still = s.pending_text.filter(unconfirmed(lines, me));
    let a = s.messages.filter(settled());
    let b = server_messages(lines);
    let c = pending_messages(me, s.my_color, still);
    let t = applied(s, ApiEventView::Messages(lines));
    assert(t.messages == a + b + c);
    assert forall|i: int|
        0 <= i < t.messages.len() && (#[trigger] t.messages[i]).pending implies !confirmed(
        lines,
        me,
        t.messages[i].text,
    ) by {
        if i < a.len() {
            assert(t.messages[i] == a[i]);
            assert(settled()(a[i]));
        } else if i < a.len() + b.len() {
            assert(t.messages[i] == b[i - a.len()]);
        } else {
            let k = i - a.len() - b.len();
            assert(t.messages[i] == c[k]);
            assert(unconfirmed(lines, me)(still[k]));
        }
    }
    assert forall|i: int| 0 <= i < t.pending_text.len() implies !confirmed(
        lines,
        me,
        #[trigger] t.pending_text[i],
    ) by {
        assert(unconfirmed(lines, me)(still[i]));
    }
}

/// A message sent with Enter in Insert mode is handed to the sender, shown at
/// the end of the chat as pending, and once the server confirms it in a batch
/// it is no longer pending.
pub proof fn law_sent_message_round_trip(s: AppView, ctrl: bool, lines: Seq<ChatLineView>, i: int)
    requires
        s.mode == Mode::Insert,
        s.input.len() > 0,
        0 <= i < lines.len(),
        lines[i].user == display_name(s.my_name),
        lines[i].text == s.input,
    ensures
        ({
            let (t, sent) = key_result(s, Key { code: KeyCode::Enter, ctrl });
            let u = applied(t, ApiEventView::Messages(lines));
            &&& sent == Some(s.input)
            &&& t.messages.last().pending
            &&& t.messages.last().text == s.input
            &&& !u.pending_text.contains(s.input)
            &&& forall|j: int|
                0 <= j < u.messages.len() && (#[trigger] u.messages[j]).pending ==> u.messages[j].text
                    != s.input
        }),
{
    let (t, sent) = key_result(s, Key { code: KeyCode::Enter, ctrl });
    assert(t.my_name == s.my_name);
    assert(confirmed(lines, display_name(t.my_name), s.input));
    law_confirmed_messages_settle(t, lines);
}

/// Deleting a pending message also forgets its text, so that the next batch
/// does not show it again.
pub proof fn law_deleted_pending_is_forgotten(s: AppView)
    requires
        s.panel == Panel::Chat,
        s.message_cursor < s.messages.len(),
        s.messages[s.message_cursor as int].pending,
    ensures
        !deleted(s).pending_text.contains(s.messages[s.message_cursor as int].text),
        deleted(s).messages.len() == s.messages.len() - 1,
{
    let text = s.messages[s.message_cursor as int].text;
    let kept = s.pending_text.filter(other_than(text));
    if kept.contains(text) {
        let k = choose|k: int| 0 <= k < kept.len() && kept[k] == text;
        assert(other_than(text)(kept[k]));
    }
}

/// Some step from the cursor reaches each index.
proof fn lemma_probe_reaches(cursor: nat, len: nat, i: nat, forward: bool) -> (o: nat)
    requires
        len > 0,
        i < len,
    ensures
        1 <= o <= len,
        probe(cursor, len, o, forward) == i,
{
    let c = cursor % len;
    let q = cursor as int / len as int;
    lemma_fundamental_div_mod(cursor as int, len as int);
    let o: nat = if forward {
        if i > c {
            (i - c) as nat
        } else if i == c {
            len
        } else {
            (len - c + i) as nat
        }
    } else {
        if i < c {
            (c - i) as nat
        } else if i == c {
            len
        } else {
            (c + len - i) as nat
        }
    };
    if forward {
        lemma_mod_multiples_vanish(q, (c + o) as int, len as int);
        assert(cursor + o == len * q + (c + o));
        if c + o < len {
            lemma_small_mod((c + o) as nat, len);
        } else {
            lemma_mod_add_multiples_vanish(c + o - len, len as int);
            lemma_small_mod((c + o - len) as nat, len);
        }
    } else {
        lemma_mod_multiples_vanish(q, c + len - o, len as int);
        assert(cursor + len - o == len * q + (c + len - o));
        if c + len - o < len {
            lemma_small_mod((c + len - o) as nat, len);
        } else {
            lemma_mod_add_multiples_vanish(c - o, len as int);
            lemma_small_mod((c - o) as nat, len);
        }
    }
    o
}

/// A hit at some step means a first hit.
proof fn lemma_first_hit_exists(s: AppView, query: Seq<char>, forward: bool, o: nat)
    requires
        1 <= o <= s.messages.len(),
        matches_query(s.messages[probe(s.message_cursor, s.messages.len(), o, forward) as int], query),
    ensures
        exists|f: nat| first_hit(s, query, forward, f),
    decreases o,
{
    let len = s.messages.len();
    if exists|e: nat|
        1 <= e < o && matches_query(
            #[trigger] s.messages[probe(s.message_cursor, len, e, forward) as int],
            query,
        ) {
        let e = choose|e: nat|
            1 <= e < o && matches_query(
                #[trigger] s.messages[probe(s.message_cursor, len, e, forward) as int],
                query,
            );
        lemma_first_hit_exists(s, query, forward, e);
    } else {
        assert(first_hit(s, query, forward, o));
    }
}

/// Where some message matches the search text (regardless of case), `n` and
/// `N` land the chat cursor on a matching message, in the chat panel.
pub proof fn law_search_lands_on_match(s: AppView, forward: bool, i: int)
    requires
        s.search.len() > 0,
        0 <= i < s.messages.len(),
        matches_query(s.messages[i], lowercase_of(s.search)),
    ensures
        ({
            let t = searched(s, forward);
            &&& t.panel == Panel::Chat
            &&& t.message_cursor < t.messages.len()
            &&& matches_query(t.messages[t.message_cursor as int], lowercase_of(s.search))
        }),
{
    let q = lowercase_of(s.search);
    let len = s.messages.len();
    let o = lemma_probe_reaches(s.message_cursor, len, i as nat, forward);
    lemma_first_hit_exists(s, q, forward, o);
    let f = choose|f: nat| first_hit(s, q, forward, f);
    lemma_probe_in_range(s.message_cursor, len, f, forward);
}

/// Only Enter in Insert mode sends anything, and what it sends is the typed,
/// non-empty line; no other key (deleting included) reaches the server.
pub proof fn law_only_enter_sends(s: AppView, key: Key)
    ensures
        key_result(s, key).1 matches Some(t) ==> {
            &&& s.mode == Mode::Insert
            &&& key.code == KeyCode::Enter
            &&& t == s.input
            &&& t.len() > 0
        },
{
}

/// The shorthand `#rgb` is the colour `#rrggbb`.
pub proof fn law_short_hex_color(a: char, b: char, c: char)
    ensures
        color_of(seq!['#', a, b, c]) == color_of(seq!['#', a, a, b, b, c, c]),
{
    let short = seq!['#', a, b, c];
    let long = seq!['#', a, a, b, b, c, c];
    assert(short.drop_first() =~= seq![a, b, c]);
    assert(doubled(seq![a, b, c]) =~= long.drop_first());
    assert(hex_color_digits(short) == hex_color_digits(long));
    lemma_hash_names_unnamed(short);
    lemma_hash_names_unnamed(long);
}

/// A name starting with `#` is none of the named colours.
proof fn lemma_hash_names_unnamed(name: Seq<char>)
    requires
        name.len() > 0,
        name[0] == '#',
    ensures
        named_rgb(name) == text_rgb(),
{
    reveal_strlit("white");
    reveal_strlit("tomato");
    reveal_strlit("lime");
    reveal_strlit("tan");
    reveal_strlit("violet");
    reveal_strlit("pink");
    reveal_strlit("skyblue");
    assert(name != "white"@ && name != "tomato"@ && name != "lime"@ && name != "tan"@);
    assert(name != "violet"@ && name != "pink"@ && name != "skyblue"@);
}

/// The state after one key.
pub open spec fn press(s: AppView, key: Key) -> AppView {
    key_result(s, key).0
}

/// A key with no modifier.
pub open spec fn plain(c: char) -> Key {
    Key { code: KeyCode::Char(c), ctrl: false }
}

/// The index `o` steps behind `c` in a ring of `len` entries.
pub open spec fn behind(c: nat, len: nat, o: int) -> int {
    (c + len - o) % (len as int)
}

/// The index `o` steps ahead of `c` in a ring of `len` entries.
pub open spec fn ahead(c: nat, len: nat, o: int) -> int {
    (c + o) % (len as int)
}

/// A batch confirms exactly the pending texts it echoes: a pending text that
/// some line by this client repeats stops being pending; any other stays
/// pending and is still shown as a pending message.
pub proof fn law_batch_confirms_only_echoed_texts(s: AppView, lines: Seq<ChatLineView>, k: int)
    requires
        lines.len() > 0,
        0 <= k < s.pending_text.len(),
    ensures
        ({
            let r = applied(s, ApiEventView::Messages(lines));
            let me = display_name(s.my_name);
            let t = s.pending_text[k];
            let echoed = exists|i: int|
                0 <= i < lines.len() && (#[trigger] lines[i]).user == me && lines[i].text == t;
            &&& echoed ==> !r.pending_text.contains(t)
            &&& !echoed ==> r.pending_text.contains(t)
            &&& !echoed ==> exists|j: int|
                0 <= j < r.messages.len() && (#[trigger] r.messages[j]).pending
                    && r.messages[j].text == t
        }),
{
    let r = applied(s, ApiEventView::Messages(lines));
    let me = display_name(s.my_name);
    let t = s.pending_text[k];
    let pred = unconfirmed(lines, me);
    let still = s.pending_text.filter(pred);
    let a = s.messages.filter(settled());
    let b = server_messages(lines);
    let c = pending_messages(me, s.my_color, still);
    assert(r.pending_text == still);
    assert(r.messages == a + b + c);
    if exists|i: int| 0 <= i < lines.len() && (#[trigger] lines[i]).user == me && lines[i].text == t {
        let i = choose|i: int| 0 <= i < lines.len() && (#[trigger] lines[i]).user == me && lines[i].text == t;
        assert(confirmed(lines, me, t));
        if still.contains(t) {
            let j = choose|j: int| 0 <= j < still.len() && still[j] == t;
            assert(pred(still[j]));
        }
    } else {
        assert(!confirmed(lines, me, t));
        assert(pred(s.pending_text[k]));
        s.pending_text.lemma_filter_contains(pred, k);
        let j = choose|j: int| 0 <= j < still.len() && still[j] == t;
        let idx = a.len() + b.len() + j;
        assert(r.messages[idx] == c[j]);
        assert(r.messages[idx].pending && r.messages[idx].text == t);
    }
}

proof fn lemma_search_key_result(s: AppView, forward: bool, i: int)
    requires
        s.mode == Mode::Normal,
        !s.pending_ctrl_w,
        !s.pending_g,
        !s.pending_d,
        s.search.len() > 0,
        0 <= i < s.messages.len(),
        matches_query(s.messages[i], lowercase_of(s.search)),
    ensures
        press(s, plain(if forward { 'n' } else { 'N' })) == searched(s, forward),
        exists|f: nat| first_hit(s, lowercase_of(s.search), forward, f),
{
    let q = lowercase_of(s.search);
    let o = lemma_probe_reaches(s.message_cursor, s.messages.len(), i as nat, forward);
    lemma_first_hit_exists(s, q, forward, o);
}

/// `N` in Normal mode goes backward: where some message matches the search
/// text, the cursor lands on the first match met stepping back from it,
/// wrapping around.
pub proof fn law_shift_n_searches_backward(s: AppView, i: int)
    requires
        s.mode == Mode::Normal,
        !s.pending_ctrl_w,
        !s.pending_g,
        !s.pending_d,
        s.search.len() > 0,
        0 <= i < s.messages.len(),
        matches_query(s.messages[i], lowercase_of(s.search)),
    ensures
        ({
            let t = press(s, plain('N'));
            let len = s.messages.len();
            let q = lowercase_of(s.search);
            &&& t.panel == Panel::Chat
            &&& exists|o: int|
                1 <= o <= len && t.message_cursor == behind(s.message_cursor, len, o)
                    && matches_query(s.messages[behind(s.message_cursor, len, o)], q)
                    && forall|o2: int|
                    1 <= o2 < o ==> !matches_query(
                        s.messages[#[trigger] behind(s.message_cursor, len, o2)],
                        q,
                    )
        }),
{
    lemma_search_key_result(s, false, i);
    let q = lowercase_of(s.search);
    let len = s.messages.len();
    let f = choose|f: nat| first_hit(s, q, false, f);
    assert(probe(s.message_cursor, len, f, false) == behind(s.message_cursor, len, f as int));
    assert forall|o2: int| 1 <= o2 < f implies !matches_query(
        s.messages[#[trigger] behind(s.message_cursor, len, o2)],
        q,
    ) by {
        assert(probe(s.message_cursor, len, o2 as nat, false) == behind(s.message_cursor, len, o2));
        assert(!matches_query(s.messages[probe(s.message_cursor, len, o2 as nat, false) as int], q));
    }
    assert(1 <= f <= len && press(s, plain('N')).message_cursor == behind(s.message_cursor, len, f as int));
}

/// `n` in Normal mode goes forward: the cursor lands on the first match met
/// stepping ahead from it, wrapping around.
pub proof fn law_n_searches_forward(s: AppView, i: int)
    requires
        s.mode == Mode::Normal,
        !s.pending_ctrl_w,
        !s.pending_g,
        !s.pending_d,
        s.search.len() > 0,
        0 <= i < s.messages.len(),
        matches_query(s.messages[i], lowercase_of(s.search)),
    ensures
        ({
            let t = press(s, plain('n'));
            let len = s.messages.len();
            let q = lowercase_of(s.search);
            &&& t.panel == Panel::Chat
            &&& exists|o: int|
                1 <= o <= len && t.message_cursor == ahead(s.message_cursor, len, o)
                    && matches_query(s.messages[ahead(s.message_cursor, len, o)], q)
                    && forall|o2: int|
                    1 <= o2 < o ==> !matches_query(
                        s.messages[#[trigger] ahead(s.message_cursor, len, o2)],
                        q,
                    )
        }),
{
    lemma_search_key_result(s, true, i);
    let q = lowercase_of(s.search);
    let len = s.messages.len();
    let f = choose|f: nat| first_hit(s, q, true, f);
    assert(probe(s.message_cursor, len, f, true) == ahead(s.message_cursor, len, f as int));
    assert forall|o2: int| 1 <= o2 < f implies !matches_query(
        s.messages[#[trigger] ahead(s.message_cursor, len, o2)],
        q,
    ) by {
        assert(probe(s.message_cursor, len, o2 as nat, true) == ahead(s.message_cursor, len, o2));
        assert(!matches_query(s.messages[probe(s.message_cursor, len, o2 as nat, true) as int], q));
    }
    assert(1 <= f <= len && press(s, plain('n')).message_cursor == ahead(s.message_cursor, len, f as int));
}

/// Only Esc leaves Insert mode: every other key, Enter included, keeps the
/// client in Insert mode.
pub proof fn law_only_escape_leaves_insert(s: AppView, key: Key)
    requires
        s.mode == Mode::Insert,
    ensures
        key.code != KeyCode::Esc ==> press(s, key).mode == Mode::Insert,
        key.code == KeyCode::Esc ==> press(s, key).mode == Mode::Normal,
{
}

/// `Ctrl+w k` undoes `Ctrl+w j`, and `Ctrl+w h` undoes `Ctrl+w l`, on every
/// panel those keys move from; the moves themselves change the panel.
pub proof fn law_window_moves_undo(s: AppView)
    requires
        s.mode == Mode::Normal,
        !s.pending_ctrl_w,
        !s.pending_g,
        !s.pending_d,
    ensures
        ({
            let w = Key { code: KeyCode::Char('w'), ctrl: true };
            let down = press(press(s, w), plain('j'));
            let right = press(press(s, w), plain('l'));
            &&& (s.panel == Panel::Explorer || s.panel == Panel::Chat) ==> down.panel != s.panel
                && press(press(down, w), plain('k')) == s
            &&& (s.panel == Panel::Explorer || s.panel == Panel::Context) ==> right.panel
                != s.panel && press(press(right, w), plain('h')) == s
        }),
{
    let w = Key { code: KeyCode::Char('w'), ctrl: true };
    let down = press(press(s, w), plain('j'));
    let right = press(press(s, w), plain('l'));
    assert(press(press(down, w), plain('k')) =~= AppView { panel: press(press(down, w), plain('k')).panel, ..s });
    assert(press(press(right, w), plain('h')) =~= AppView { panel: press(press(right, w), plain('h')).panel, ..s });
}

/// `x` on the chat removes the message under the cursor and nothing else; the
/// cursor stays where it is (now on the next message) unless it was on the
/// last one, where it goes to the new last one.
pub proof fn law_delete_keeps_cursor_place(s: AppView)
    requires
        s.mode == Mode::Normal,
        !s.pending_ctrl_w,
        !s.pending_g,
        !s.pending_d,
        s.panel == Panel::Chat,
        s.message_cursor < s.messages.len(),
    ensures
        ({
            let t = press(s, plain('x'));
            let c = s.message_cursor as int;
            let n = s.messages.len() as int;
            &&& t.messages.len() == n - 1
            &&& forall|j: int| 0 <= j < c ==> t.messages[j] == s.messages[j]
            &&& forall|j: int| c <= j < n - 1 ==> t.messages[j] == s.messages[j + 1]
            &&& c + 1 < n ==> t.message_cursor == c
            &&& c + 1 == n && n >= 2 ==> t.message_cursor == n - 2
            &&& n == 1 ==> t.message_cursor == 0
        }),
{
}

proof fn lemma_filter_all_kept<A>(v: Seq<A>, pred: spec_fn(A) -> bool)
    requires
        forall|j: int| 0 <= j < v.len() ==> pred(#[trigger] v[j]),
    ensures
        v.filter(pred) == v,
    decreases v.len(),
{
    reveal(Seq::filter);
    if v.len() > 0 {
        lemma_filter_all_kept(v.drop_last(), pred);
        assert(v.drop_last().push(v.last()) =~= v);
    }
}

/// With nothing pending, a batch of lines keeps the whole chat as it was and
/// appends the lines after it, in order, as settled messages; a cursor on the
/// last message (or an empty chat) moves to the new last message, and any
/// other cursor stays.
pub proof fn law_batch_appends_after_history(s: AppView, lines: Seq<ChatLineView>)
    requires
        lines.len() > 0,
        s.pending_text.len() == 0,
        forall|j: int| 0 <= j < s.messages.len() ==> !(#[trigger] s.messages[j]).pending,
    ensures
        ({
            let r = applied(s, ApiEventView::Messages(lines));
            let n = s.messages.len() as int;
            &&& r.connected
            &&& r.messages.len() == n + lines.len()
            &&& forall|j: int| 0 <= j < n ==> r.messages[j] == s.messages[j]
            &&& forall|j: int|
                0 <= j < lines.len() ==> {
                    &&& (#[trigger] r.messages[n + j]).user == lines[j].user
                    &&& r.messages[n + j].text == lines[j].text
                    &&& r.messages[n + j].color == lines[j].color
                    &&& !r.messages[n + j].pending
                }
            &&& (n == 0 || s.message_cursor + 1 >= n) ==> r.message_cursor == r.messages.len() - 1
            &&& (n > 0 && s.message_cursor + 1 < n) ==> r.message_cursor == s.message_cursor
            &&& r.scroll == r.message_cursor
        }),
{
    let me = display_name(s.my_name);
    lemma_filter_all_kept(s.messages, settled());
    assert(s.pending_text.filter(unconfirmed(lines, me)).len() == 0);
    let r = applied(s, ApiEventView::Messages(lines));
    let c = pending_messages(me, s.my_color, s.pending_text.filter(unconfirmed(lines, me)));
    assert(r.messages == s.messages + server_messages(lines) + c);
    assert(c.len() == 0);
}

/// Enter in Insert mode with a typed line sends exactly that line, empties
/// the line, remembers the text as pending, and shows it as one more message
/// at the end, pending, under this client's name, with the cursor on it.
pub proof fn law_enter_sends_and_shows_pending(s: AppView, ctrl: bool)
    requires
        s.mode == Mode::Insert,
        s.input.len() > 0,
    ensures
        ({
            let (t, sent) = key_result(s, Key { code: KeyCode::Enter, ctrl });
            let n = s.messages.len() as int;
            &&& sent == Some(s.input)
            &&& t.input.len() == 0
            &&& t.mode == Mode::Insert
            &&& t.pending_text == s.pending_text.push(s.input)
            &&& t.messages.len() == n + 1
            &&& forall|j: int| 0 <= j < n ==> t.messages[j] == s.messages[j]
            &&& t.messages[n].text == s.input
            &&& t.messages[n].pending
            &&& t.messages[n].user == display_name(s.my_name)
            &&& t.messages[n].color == s.my_color
            &&& t.message_cursor == n
        }),
{
}

} // verus!
