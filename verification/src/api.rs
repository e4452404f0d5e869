//! What the chat server sends, read into plain records, and the requests the
//! client makes of it.
use vstd::prelude::*;

use crate::json::{
    bool_member, child_node, json_node_of, member_node, node_get, node_view, parse_node,
    str_member, bool_field, str_field, JsonNode, JsonNodeView,
};
use crate::text::{
    lemma_text_less_irreflexive, lemma_text_less_transitive, owned,
    same_text, text_before, text_less,
};

verus! {

/// One line of the room's chat, as the server reports it.
#[derive(Clone)]
pub struct ChatLine {
    pub id: String,
    pub user: String,
    pub text: String,
    pub color: String,
}

pub struct ChatLineView {
    pub id: Seq<char>,
    pub user: Seq<char>,
    pub text: Seq<char>,
    pub color: Seq<char>,
}

impl View for ChatLine {
    type V = ChatLineView;

    open spec fn view(&self) -> ChatLineView {
        ChatLineView { id: self.id@, user: self.user@, text: self.text@, color: self.color@ }
    }
}

/// A participant of the room.
#[derive(Clone)]
pub struct PlayerInfo {
    pub name: String,
    pub job: String,
    pub color: String,
    pub alive: bool,
    pub is_cpu: bool,
    pub is_active: bool,
}

pub struct PlayerInfoView {
    pub name: Seq<char>,
    pub job: Seq<char>,
    pub color: Seq<char>,
    pub alive: bool,
    pub is_cpu: bool,
    pub is_active: bool,
}

impl View for PlayerInfo {
    type V = PlayerInfoView;

    open spec fn view(&self) -> PlayerInfoView {
        PlayerInfoView {
            name: self.name@,
            job: self.job@,
            color: self.color@,
            alive: self.alive,
            is_cpu: self.is_cpu,
            is_active: self.is_active,
        }
    }
}

/// The room's metadata: name, scene, day and capacity (`teiin`).
#[derive(Clone)]
pub struct RoomInfo {
    pub name: String,
    pub scene: String,
    pub day: String,
    pub teiin: String,
}

pub struct RoomInfoView {
    pub name: Seq<char>,
    pub scene: Seq<char>,
    pub day: Seq<char>,
    pub teiin: Seq<char>,
}

impl View for RoomInfo {
    type V = RoomInfoView;

    open spec fn view(&self) -> RoomInfoView {
        RoomInfoView { name: self.name@, scene: self.scene@, day: self.day@, teiin: self.teiin@ }
    }
}

impl Default for RoomInfo {
    fn default() -> (r: RoomInfo)
        ensures
            r@ == empty_room(),
    {
        RoomInfo { name: String::new(), scene: String::new(), day: String::new(), teiin: String::new() }
    }
}

pub open spec fn empty_room() -> RoomInfoView {
    RoomInfoView { name: Seq::empty(), scene: Seq::empty(), day: Seq::empty(), teiin: Seq::empty() }
}

/// Everything one players request tells: the participants, the room, and who
/// this client is.
#[derive(Clone)]
pub struct PlayersSnapshot {
    pub players: Vec<PlayerInfo>,
    pub room: RoomInfo,
    pub me: String,
    pub my_color: String,
}

pub struct PlayersSnapshotView {
    pub players: Seq<PlayerInfoView>,
    pub room: RoomInfoView,
    pub me: Seq<char>,
    pub my_color: Seq<char>,
}

pub open spec fn players_view(v: Seq<PlayerInfo>) -> Seq<PlayerInfoView> {
    v.map_values(|p: PlayerInfo| p@)
}

pub open spec fn lines_view(v: Seq<ChatLine>) -> Seq<ChatLineView> {
    v.map_values(|l: ChatLine| l@)
}

impl View for PlayersSnapshot {
    type V = PlayersSnapshotView;

    open spec fn view(&self) -> PlayersSnapshotView {
        PlayersSnapshotView {
            players: players_view(self.players@),
            room: self.room@,
            me: self.me@,
            my_color: self.my_color@,
        }
    }
}

impl Default for PlayersSnapshot {
    fn default() -> (r: PlayersSnapshot)
        ensures
            r@ == empty_snapshot(),
    {
        let players: Vec<PlayerInfo> = Vec::new();
        assert(players_view(players@) =~= Seq::<PlayerInfoView>::empty());
        PlayersSnapshot {
            players,
            room: RoomInfo::default(),
            me: String::new(),
            my_color: String::new(),
        }
    }
}

pub open spec fn empty_snapshot() -> PlayersSnapshotView {
    PlayersSnapshotView {
        players: Seq::empty(),
        room: empty_room(),
        me: Seq::empty(),
        my_color: Seq::empty(),
    }
}

// ---------------------------------------------------------------------------
// Messages

/// The chat line that one item of the messages array stands for.
pub open spec fn chat_line_of(item: Seq<char>) -> ChatLineView {
    let n = json_node_of(item);
    ChatLineView {
        id: str_member(n, "id"@),
        user: str_member(n, "from_user"@),
        text: str_member(n, "message"@),
        color: str_member(n, "color"@),
    }
}

/// The lines of a messages document: the items of its top-level array, in
/// reverse order (the server lists the newest first); nothing for any other
/// document.
pub open spec fn chat_lines_of(doc: Option<JsonNodeView>) -> Seq<ChatLineView> {
    match doc {
        Some(JsonNodeView::Array(items)) => lines_from_end(items, items.len()),
        _ => Seq::empty(),
    }
}

/// The chat lines of the last `n` items, last item first.
pub open spec fn lines_from_end(items: Seq<Seq<char>>, n: nat) -> Seq<ChatLineView> {
    Seq::new(n, |i: int| chat_line_of(items[items.len() - 1 - i]))
}

/// One chat line from the JSON text of one item.
pub fn chat_line_from(item: &str) -> (r: ChatLine)
    ensures
        r@ == chat_line_of(item@),
{
    let node = parse_node(item);
    ChatLine {
        id: str_field(&node, "id"),
        user: str_field(&node, "from_user"),
        text: str_field(&node, "message"),
        color: str_field(&node, "color"),
    }
}

/// The chat lines of an already parsed messages document.
pub fn chat_lines_from(doc: &Option<JsonNode>) -> (r: Vec<ChatLine>)
    ensures
        lines_view(r@) == chat_lines_of(node_view(*doc)),
{
    let mut out: Vec<ChatLine> = Vec::new();
    match doc {
        Some(JsonNode::Array(items)) => {
            let ghost iv = items@.map_values(|t: String| t@);
            let mut k: usize = items.len();
            while k > 0
                invariant
                    k <= items.len(),
                    iv == items@.map_values(|t: String| t@),
                    lines_view(out@) == lines_from_end(iv, (items.len() - k) as nat),
                decreases k,
            {
                k = k - 1;
                let ghost prev = out@;
                let line = chat_line_from(items[k].as_str());
                out.push(line);
                proof {
                    assert(iv[k as int] == items@[k as int]@);
                    let want = lines_from_end(iv, (items.len() - k) as nat);
                    assert(lines_view(prev).len() == prev.len());
                    assert(prev.len() == items.len() - k - 1);
                    assert(out@.len() == prev.len() + 1);
                    assert(want.len() == out@.len());
                    assert forall|j: int| 0 <= j < out@.len() implies #[trigger] lines_view(
                        out@,
                    )[j] == want[j] by {
                        if j < prev.len() {
                            assert(out@[j] == prev[j]);
                            assert(lines_view(prev)[j] == want[j]);
                        } else {
                            assert(out@[j] == line);
                        }
                    }
                    assert(lines_view(out@) =~= want);
                }
            }
            assert(node_view(*doc) == Some(JsonNodeView::Array(iv)));
            assert(lines_view(out@) =~= lines_from_end(iv, iv.len()));
        },
        _ => {},
    }
    out
}

/// Reads a messages response (`GET /m/api/?mode=message`) into chat lines,
/// oldest first. Text that is not JSON, or not an array, gives no lines.
pub fn parse_messages(raw: &str) -> (r: Vec<ChatLine>)
    ensures
        lines_view(r@) == chat_lines_of(json_node_of(raw@)),
{
    let doc = parse_node(raw);
    chat_lines_from(&doc)
}

// ---------------------------------------------------------------------------
// Players

/// The participant that one member of the `players` object stands for.
pub open spec fn player_of(text: Seq<char>) -> PlayerInfoView {
    let n = json_node_of(text);
    PlayerInfoView {
        name: str_member(n, "name"@),
        job: str_member(n, "job"@),
        color: str_member(n, "color"@),
        alive: str_member(n, "alive"@) == "1"@,
        is_cpu: str_member(n, "is_cpu"@) == "1"@,
        is_active: bool_member(n, "is_active"@),
    }
}

/// The participants of a players document: one per member of its `players`
/// object, in the object's order.
pub open spec fn players_of(doc: Option<JsonNodeView>) -> Seq<PlayerInfoView> {
    match child_node(node_get(doc, "players"@)) {
        Some(JsonNodeView::Object(entries)) => players_in(entries),
        _ => Seq::empty(),
    }
}

/// One participant per member, in order.
pub open spec fn players_in(entries: Seq<(Seq<char>, Seq<char>)>) -> Seq<PlayerInfoView> {
    entries.map_values(|e: (Seq<char>, Seq<char>)| player_of(e.1))
}

/// The room of a players document (empty fields where there is none).
pub open spec fn room_of(doc: Option<JsonNodeView>) -> RoomInfoView {
    let r = child_node(node_get(doc, "room"@));
    RoomInfoView {
        name: str_member(r, "name"@),
        scene: str_member(r, "scene"@),
        day: str_member(r, "day"@),
        teiin: str_member(r, "teiin"@),
    }
}

/// Everything a players document tells.
pub open spec fn snapshot_of(doc: Option<JsonNodeView>) -> PlayersSnapshotView {
    let me = child_node(node_get(doc, "player"@));
    PlayersSnapshotView {
        players: players_of(doc),
        room: room_of(doc),
        me: str_member(me, "name"@),
        my_color: str_member(me, "color"@),
    }
}

/// One participant from the JSON text of one member of `players`.
pub fn player_from(text: &str) -> (r: PlayerInfo)
    ensures
        r@ == player_of(text@),
{
    let node = parse_node(text);
    let alive = str_field(&node, "alive");
    let is_cpu = str_field(&node, "is_cpu");
    PlayerInfo {
        name: str_field(&node, "name"),
        job: str_field(&node, "job"),
        color: str_field(&node, "color"),
        alive: same_text(alive.as_str(), "1"),
        is_cpu: same_text(is_cpu.as_str(), "1"),
        is_active: bool_field(&node, "is_active"),
    }
}

/// The snapshot of an already parsed players document.
pub fn snapshot_from(doc: &Option<JsonNode>) -> (r: PlayersSnapshot)
    ensures
        r@ == snapshot_of(node_view(*doc)),
{
    let mut players: Vec<PlayerInfo> = Vec::new();
    let listed = member_node(doc, "players");
    match &listed {
        Some(JsonNode::Object(entries)) => {
            let ghost es = entries@.map_values(|e: (String, String)| (e.0@, e.1@));
            let mut i: usize = 0;
            while i < entries.len()
                invariant
                    i <= entries.len(),
                    es == entries@.map_values(|e: (String, String)| (e.0@, e.1@)),
                    players_view(players@) == players_in(es.take(i as int)),
                decreases entries.len() - i,
            {
                let ghost prev = players@;
                let p = player_from(entries[i].1.as_str());
                players.push(p);
                proof {
                    let want = players_in(es.take(i + 1));
                    assert(es.len() == entries@.len());
                    assert(players_view(prev).len() == prev.len());
                    assert(prev.len() == i);
                    assert(want.len() == i + 1);
                    assert forall|j: int| 0 <= j < players@.len() implies #[trigger] players_view(
                        players@,
                    )[j] == want[j] by {
                        if j < prev.len() {
                            assert(players@[j] == prev[j]);
                            assert(players_view(prev)[j] == players_in(es.take(i as int))[j]);
                        } else {
                            assert(players@[j] == p);
                        }
                    }
                    assert(es[i as int] == (entries@[i as int].0@, entries@[i as int].1@));
                    assert(es.take(i + 1) =~= es.take(i as int).push(es[i as int]));
                    assert(players_view(players@) =~= want);
                }
                i = i + 1;
            }
            assert(es.take(i as int) =~= es);
            assert(node_view(listed) == Some(JsonNodeView::Object(es)));
        },
        _ => {
            assert(players_view(players@) =~= Seq::<PlayerInfoView>::empty());
        },
    }
    let room = member_node(doc, "room");
    let me = member_node(doc, "player");
    PlayersSnapshot {
        players,
        room: RoomInfo {
            name: str_field(&room, "name"),
            scene: str_field(&room, "scene"),
            day: str_field(&room, "day"),
            teiin: str_field(&room, "teiin"),
        },
        me: str_field(&me, "name"),
        my_color: str_field(&me, "color"),
    }
}

/// Reads a players response (`GET /m/api/?mode=players`). Text that is not
/// JSON gives the empty snapshot; missing parts read as empty.
pub fn parse_players(raw: &str) -> (r: PlayersSnapshot)
    ensures
        r@ == snapshot_of(json_node_of(raw@)),
{
    let doc = parse_node(raw);
    snapshot_from(&doc)
}

// ---------------------------------------------------------------------------
// Requests

/// The view of a list of query parameters.
pub open spec fn params_view(v: Seq<(String, String)>) -> Seq<(Seq<char>, Seq<char>)> {
    v.map_values(|p: (String, String)| (p.0@, p.1@))
}

/// The query of a messages request: `last_id` is sent only once some message
/// has been seen.
pub open spec fn message_query_of(last_id: Seq<char>) -> Seq<(Seq<char>, Seq<char>)> {
    let base = seq![
        ("mode"@, "message"@),
        ("id"@, "らぶちぃべんちれーしょんふぉーえばー"@),
    ];
    if last_id.len() == 0 {
        base
    } else {
        base.push(("last_id"@, last_id))
    }
}

/// The query parameters of `GET /m/api/` for new messages after `last_id`.
pub fn message_query(last_id: &str) -> (r: Vec<(String, String)>)
    ensures
        params_view(r@) == message_query_of(last_id@),
{
    let mut params: Vec<(String, String)> = Vec::new();
    params.push((owned("mode"), owned("message")));
    params.push((owned("id"), owned("らぶちぃべんちれーしょんふぉーえばー")));
    if !last_id.is_empty() {
        params.push((owned("last_id"), owned(last_id)));
    }
    assert(params_view(params@) =~= message_query_of(last_id@));
    params
}

/// The query of `POST /m/player.php` that says `text` to `to_user`
/// (`ALL` for the whole room).
pub open spec fn message_params_of(to_user: Seq<char>, text: Seq<char>) -> Seq<(Seq<char>, Seq<char>)> {
    seq![("mode"@, "message"@), ("to_user"@, to_user), ("message"@, text)]
}

pub fn message_params(to_user: &str, text: &str) -> (r: Vec<(String, String)>)
    ensures
        params_view(r@) == message_params_of(to_user@, text@),
{
    let mut params: Vec<(String, String)> = Vec::new();
    params.push((owned("mode"), owned("message")));
    params.push((owned("to_user"), owned(to_user)));
    params.push((owned("message"), owned(text)));
    assert(params_view(params@) =~= message_params_of(to_user@, text@));
    params
}

/// `m` is a greatest id among `lines` in the order of `str`.
pub open spec fn is_newest_id(lines: Seq<ChatLineView>, m: Seq<char>) -> bool {
    &&& exists|i: int| 0 <= i < lines.len() && lines[i].id == m
    &&& forall|i: int| 0 <= i < lines.len() ==> !text_less(m, #[trigger] lines[i].id)
}

/// The greatest id among the lines (compared as strings), which becomes the
/// `last_id` of the next messages request; `None` for no lines.
pub fn newest_message_id(lines: &Vec<ChatLine>) -> (r: Option<String>)
    ensures
        r is None <==> lines@.len() == 0,
        r matches Some(m) ==> is_newest_id(lines_view(lines@), m@),
{
    if lines.len() == 0 {
        return None;
    }
    let ghost lv = lines_view(lines@);
    let mut best: usize = 0;
    let mut i: usize = 1;
    proof {
        lemma_text_less_irreflexive(lv[0].id);
    }
    while i < lines.len()
        invariant
            lv == lines_view(lines@),
            lines.len() > 0,
            1 <= i <= lines.len(),
            best < i,
            forall|j: int| 0 <= j < i ==> !text_less(lv[best as int].id, #[trigger] lv[j].id),
        decreases lines.len() - i,
    {
        if text_before(lines[best].id.as_str(), lines[i].id.as_str()) {
            proof {
                assert forall|j: int| 0 <= j < i + 1 implies !text_less(
                    lv[i as int].id,
                    #[trigger] lv[j].id,
                ) by {
                    if j < i {
                        if text_less(lv[i as int].id, lv[j].id) {
                            lemma_text_less_transitive(lv[best as int].id, lv[i as int].id, lv[j].id);
                        }
                    } else {
                        lemma_text_less_irreflexive(lv[i as int].id);
                    }
                }
            }
            best = i;
        }
        i = i + 1;
    }
    let r = lines[best].id.clone();
    assert(lv[best as int].id == r@);
    Some(r)
}

/// How long a players snapshot is reused before the server is asked again.
pub const PLAYERS_CACHE_TTL_MS: u128 = 10000;

/// Whether a players snapshot fetched `age_ms` milliseconds ago is still
/// served from the cache.
pub fn players_cache_fresh(age_ms: u128) -> (r: bool)
    ensures
        r == (age_ms < PLAYERS_CACHE_TTL_MS),
{
    age_ms < PLAYERS_CACHE_TTL_MS
}

} // verus!
