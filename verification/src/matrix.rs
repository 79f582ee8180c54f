//! The Matrix listener's rules: which messages of a `/sync` response are
//! dispatched, the ping reply, where replies are sent, where the sync
//! position is kept, which scripts subscribe, and how the Windmill API is
//! addressed.

use crate::lines::{trim_char, trim_end_char, trim_end_matches, trim_matches};
use crate::text::{
    chars_of, concat, has_prefix, push_str, str_eq, str_starts_with, string_of, trim, trim_seq,
};
use vstd::prelude::*;

verus! {

// ─── Messages ────────────────────────────────────────────────────────────────

/// A timeline event, as far as dispatching reads it: its `type`, `sender`
/// and `content.body` when they are strings.
#[derive(Debug)]
pub struct RoomEvent {
    pub event_type: Option<String>,
    pub sender: Option<String>,
    pub body: Option<String>,
}

/// A joined room and its timeline events (`None` when the timeline has no
/// event list).
#[derive(Debug)]
pub struct JoinedRoom {
    pub room_id: String,
    pub events: Option<Vec<RoomEvent>>,
}

/// A message to dispatch: where it is in the response, its room and its
/// body (empty when it has none).
#[derive(Debug, PartialEq, Eq)]
pub struct Message {
    pub room: usize,
    pub event: usize,
    pub room_id: String,
    pub body: String,
}

/// Whether an event is dispatched: a room message not sent by the bot.
pub open spec fn is_dispatched(e: RoomEvent, botname: Seq<char>) -> bool {
    &&& e.event_type is Some && e.event_type.unwrap()@ == "m.room.message"@
    &&& !(e.sender is Some && e.sender.unwrap()@ == botname)
}

/// A message as plain data: room index, event index, room id, body.
pub type MessageView = (int, int, Seq<char>, Seq<char>);

pub open spec fn message_view(m: Message) -> MessageView {
    (m.room as int, m.event as int, m.room_id@, m.body@)
}

pub open spec fn body_of(e: RoomEvent) -> Seq<char> {
    match e.body {
        Some(b) => b@,
        None => Seq::empty(),
    }
}

/// The messages of room `r` among its first `n` events.
pub open spec fn room_messages(room: JoinedRoom, r: int, n: int, botname: Seq<char>) -> Seq<MessageView>
    decreases n,
{
    match room.events {
        None => Seq::empty(),
        Some(evs) => if n <= 0 || n > evs@.len() {
            Seq::empty()
        } else {
            let rest = room_messages(room, r, n - 1, botname);
            let e = evs@[n - 1];
            if is_dispatched(e, botname) {
                rest.push((r, n - 1, room.room_id@, body_of(e)))
            } else {
                rest
            }
        },
    }
}

pub open spec fn room_len(room: JoinedRoom) -> int {
    match room.events {
        Some(evs) => evs@.len() as int,
        None => 0,
    }
}

/// The messages to dispatch from the first `n` rooms, room by room, each
/// room's events in order.
pub open spec fn messages_in(rooms: Seq<JoinedRoom>, n: int, botname: Seq<char>) -> Seq<MessageView>
    decreases n,
{
    if n <= 0 || n > rooms.len() {
        Seq::empty()
    } else {
        messages_in(rooms, n - 1, botname) + room_messages(
            rooms[n - 1],
            n - 1,
            room_len(rooms[n - 1]),
            botname,
        )
    }
}

pub open spec fn messages_view(ms: Seq<Message>) -> Seq<MessageView> {
    ms.map_values(|m: Message| message_view(m))
}

/// Event `i` of room `r` is one to dispatch.
pub open spec fn dispatched_at(rooms: Seq<JoinedRoom>, botname: Seq<char>, r: int, i: int) -> bool {
    &&& 0 <= r < rooms.len()
    &&& rooms[r].events is Some
    &&& 0 <= i < rooms[r].events.unwrap()@.len()
    &&& is_dispatched(rooms[r].events.unwrap()@[i], botname)
}

/// `a` comes strictly before `b` in the response: an earlier room, or an
/// earlier event of the same room.
pub open spec fn before_in_response(a: MessageView, b: MessageView) -> bool {
    a.0 < b.0 || (a.0 == b.0 && a.1 < b.1)
}

proof fn lemma_room_messages(room: JoinedRoom, r: int, n: int, botname: Seq<char>)
    ensures
        forall|k: int| 0 <= k < room_messages(room, r, n, botname).len() ==> {
            let m = #[trigger] room_messages(room, r, n, botname)[k];
            &&& m.0 == r
            &&& room.events is Some
            &&& 0 <= m.1 < n
            &&& m.1 < room.events.unwrap()@.len()
            &&& is_dispatched(room.events.unwrap()@[m.1], botname)
            &&& m.2 == room.room_id@
            &&& m.3 == body_of(room.events.unwrap()@[m.1])
        },
        forall|k1: int, k2: int|
            0 <= k1 < k2 < room_messages(room, r, n, botname).len() ==> (#[trigger] room_messages(room, r, n, botname)[k1]).1
                < (#[trigger] room_messages(room, r, n, botname)[k2]).1,
        room.events is Some && n <= room.events.unwrap()@.len() ==> forall|i: int|
            0 <= i < n && is_dispatched(#[trigger] room.events.unwrap()@[i], botname) ==> exists|k: int|
                0 <= k < room_messages(room, r, n, botname).len() && (#[trigger] room_messages(room, r, n, botname)[k]).1 == i,
    decreases n,
{
    match room.events {
        None => {},
        Some(evs) => {
            if n > 0 && n <= evs@.len() {
                lemma_room_messages(room, r, n - 1, botname);
                let rest = room_messages(room, r, n - 1, botname);
                let all = room_messages(room, r, n, botname);
                let e = evs@[n - 1];
                if is_dispatched(e, botname) {
                    assert(all == rest.push((r, n - 1, room.room_id@, body_of(e))));
                    assert forall|i: int| 0 <= i < n && is_dispatched(#[trigger] evs@[i], botname) implies exists|k: int|
                        0 <= k < all.len() && (#[trigger] all[k]).1 == i by {
                        if i == n - 1 {
                            assert(all[all.len() - 1].1 == i);
                        } else {
                            let k = choose|k: int| 0 <= k < rest.len() && (#[trigger] rest[k]).1 == i;
                            assert(all[k] == rest[k]);
                        }
                    }
                    assert forall|k1: int, k2: int| 0 <= k1 < k2 < all.len() implies (#[trigger] all[k1]).1 < (#[trigger] all[k2]).1 by {
                        assert(all[k1] == rest[k1]);
                        if k2 < rest.len() {
                            assert(all[k2] == rest[k2]);
                        }
                    }
                    assert forall|k: int| 0 <= k < all.len() implies {
                        let m = #[trigger] all[k];
                        &&& m.0 == r
                        &&& room.events is Some
                        &&& 0 <= m.1 < n
                        &&& m.1 < room.events.unwrap()@.len()
                        &&& is_dispatched(room.events.unwrap()@[m.1], botname)
                        &&& m.2 == room.room_id@
                        &&& m.3 == body_of(room.events.unwrap()@[m.1])
                    } by {
                        if k < rest.len() {
                            assert(all[k] == rest[k]);
                        }
                    }
                } else {
                    assert(all == rest);
                    assert forall|i: int| 0 <= i < n && is_dispatched(#[trigger] evs@[i], botname) implies exists|k: int|
                        0 <= k < all.len() && (#[trigger] all[k]).1 == i by {
                        let k = choose|k: int| 0 <= k < rest.len() && (#[trigger] rest[k]).1 == i;
                    }
                }
            }
        },
    }
}

proof fn lemma_messages_in(rooms: Seq<JoinedRoom>, n: int, botname: Seq<char>)
    requires
        0 <= n <= rooms.len(),
    ensures
        forall|k: int| 0 <= k < messages_in(rooms, n, botname).len() ==> {
            let m = #[trigger] messages_in(rooms, n, botname)[k];
            &&& 0 <= m.0 < n
            &&& dispatched_at(rooms, botname, m.0, m.1)
            &&& m.2 == rooms[m.0].room_id@
            &&& m.3 == body_of(rooms[m.0].events.unwrap()@[m.1])
        },
        forall|k1: int, k2: int|
            0 <= k1 < k2 < messages_in(rooms, n, botname).len() ==> before_in_response(
                #[trigger] messages_in(rooms, n, botname)[k1],
                #[trigger] messages_in(rooms, n, botname)[k2],
            ),
        forall|r: int, i: int|
            0 <= r < n && #[trigger] dispatched_at(rooms, botname, r, i) ==> exists|k: int|
                0 <= k < messages_in(rooms, n, botname).len() && (#[trigger] messages_in(rooms, n, botname)[k]).0 == r
                    && messages_in(rooms, n, botname)[k].1 == i,
    decreases n,
{
    if n > 0 {
        lemma_messages_in(rooms, n - 1, botname);
        let room = rooms[n - 1];
        let len = room_len(room);
        lemma_room_messages(room, n - 1, len, botname);
        let pre = messages_in(rooms, n - 1, botname);
        let add = room_messages(room, n - 1, len, botname);
        let all = messages_in(rooms, n, botname);
        assert(all == pre + add);
        assert forall|k: int| 0 <= k < all.len() implies {
            let m = #[trigger] all[k];
            &&& 0 <= m.0 < n
            &&& dispatched_at(rooms, botname, m.0, m.1)
            &&& m.2 == rooms[m.0].room_id@
            &&& m.3 == body_of(rooms[m.0].events.unwrap()@[m.1])
        } by {
            if k < pre.len() {
                assert(all[k] == pre[k]);
            } else {
                assert(all[k] == add[k - pre.len()]);
            }
        }
        assert forall|k1: int, k2: int| 0 <= k1 < k2 < all.len() implies before_in_response(
            #[trigger] all[k1],
            #[trigger] all[k2],
        ) by {
            if k2 < pre.len() {
                assert(all[k1] == pre[k1] && all[k2] == pre[k2]);
            } else if k1 < pre.len() {
                assert(all[k1] == pre[k1] && all[k2] == add[k2 - pre.len()]);
            } else {
                assert(all[k1] == add[k1 - pre.len()] && all[k2] == add[k2 - pre.len()]);
            }
        }
        assert forall|r: int, i: int| 0 <= r < n && #[trigger] dispatched_at(rooms, botname, r, i) implies exists|k: int|
            0 <= k < all.len() && (#[trigger] all[k]).0 == r && all[k].1 == i by {
            if r < n - 1 {
                let k = choose|k: int| 0 <= k < pre.len() && (#[trigger] pre[k]).0 == r && pre[k].1 == i;
                assert(all[k] == pre[k]);
            } else {
                let evs = room.events.unwrap();
                assert(is_dispatched(evs@[i], botname));
                let j = choose|j: int| 0 <= j < add.len() && (#[trigger] add[j]).1 == i;
                assert(all[pre.len() + j] == add[j]);
            }
        }
    }
}

/// The messages to dispatch are exactly the dispatchable events: every
/// room message not sent by the bot, in every joined room, appears once,
/// with its room, its position, the room's id and its body; nothing else
/// appears; and they come in the order of the response.
pub proof fn law_messages_complete(rooms: Seq<JoinedRoom>, botname: Seq<char>)
    ensures
        forall|k: int| 0 <= k < messages_in(rooms, rooms.len() as int, botname).len() ==> {
            let m = #[trigger] messages_in(rooms, rooms.len() as int, botname)[k];
            &&& dispatched_at(rooms, botname, m.0, m.1)
            &&& m.2 == rooms[m.0].room_id@
            &&& m.3 == body_of(rooms[m.0].events.unwrap()@[m.1])
        },
        forall|k1: int, k2: int|
            0 <= k1 < k2 < messages_in(rooms, rooms.len() as int, botname).len() ==> before_in_response(
                #[trigger] messages_in(rooms, rooms.len() as int, botname)[k1],
                #[trigger] messages_in(rooms, rooms.len() as int, botname)[k2],
            ),
        forall|r: int, i: int|
            #[trigger] dispatched_at(rooms, botname, r, i) ==> exists|k: int|
                0 <= k < messages_in(rooms, rooms.len() as int, botname).len() && (#[trigger] messages_in(
                    rooms,
                    rooms.len() as int,
                    botname,
                )[k]).0 == r && messages_in(rooms, rooms.len() as int, botname)[k].1 == i,
{
    lemma_messages_in(rooms, rooms.len() as int, botname);
}

fn opt_eq(o: &Option<String>, s: &str) -> (r: bool)
    ensures
        r == (o is Some && o.unwrap()@ == s@),
{
    match o {
        Some(v) => str_eq(v.as_str(), s),
        None => false,
    }
}

/// The messages of a `/sync` response's joined rooms to dispatch: room
/// messages not sent by `botname`, room by room (see [`messages_in`]).
pub fn extract_messages(rooms: &Vec<JoinedRoom>, botname: &str) -> (ms: Vec<Message>)
    ensures
        messages_view(ms@) == messages_in(rooms@, rooms@.len() as int, botname@),
{
    let mut out: Vec<Message> = Vec::new();
    let mut r: usize = 0;
    while r < rooms.len()
        invariant
            r <= rooms@.len(),
            messages_view(out@) == messages_in(rooms@, r as int, botname@),
        decreases rooms@.len() - r,
    {
        let room = &rooms[r];
        let ghost base = messages_view(out@);
        match &room.events {
            None => {
                assert(room_messages(*room, r as int, 0, botname@) =~= Seq::<MessageView>::empty());
                assert(messages_in(rooms@, r + 1, botname@) =~= base);
            },
            Some(evs) => {
                let mut i: usize = 0;
                while i < evs.len()
                    invariant
                        r < rooms@.len(),
                        room == &rooms@[r as int],
                        room.events == Some(*evs),
                        i <= evs@.len(),
                        messages_view(out@) == base + room_messages(*room, r as int, i as int, botname@),
                    decreases evs@.len() - i,
                {
                    let e = &evs[i];
                    if opt_eq(&e.event_type, "m.room.message") && !opt_eq(&e.sender, botname) {
                        let body = match &e.body {
                            Some(b) => b.clone(),
                            None => String::new(),
                        };
                        let ghost before = out@;
                        out.push(Message { room: r, event: i, room_id: room.room_id.clone(), body });
                        proof {
                            assert(messages_view(out@) =~= messages_view(before).push(message_view(out@.last())));
                        }
                    }
                    i = i + 1;
                }
            },
        }
        r = r + 1;
    }
    out
}

// ─── Ping ────────────────────────────────────────────────────────────────────

/// The reply to a ping.
pub open spec fn pong() -> Seq<char> {
    "Pong! 🏓"@
}

/// The ping trigger: `!` and the trimmed `PING_TRIGGER` (default `ping`);
/// none when that is empty.
pub open spec fn ping_trigger_for(raw: Option<Seq<char>>) -> Option<Seq<char>> {
    let t = trim_seq(match raw {
        Some(r) => r,
        None => "ping"@,
    });
    if t.len() == 0 {
        None
    } else {
        Some("!"@ + t)
    }
}

/// The ping trigger from the `PING_TRIGGER` value (see [`ping_trigger_for`]).
pub fn ping_trigger(raw: Option<String>) -> (t: Option<String>)
    ensures
        crate::postkit::model::opt_view(t) == ping_trigger_for(crate::postkit::model::opt_view(raw)),
{
    let v = match raw {
        Some(r) => r,
        None => "ping".to_owned(),
    };
    let t = trim(chars_of(v.as_str()).as_slice());
    if t.len() == 0 {
        None
    } else {
        let mut out = chars_of("!");
        crate::text::push_chars(&mut out, t.as_slice());
        Some(string_of(out.as_slice()))
    }
}

/// The reply owed to a message body, if it starts with the trigger.
pub fn ping_reply(trigger: &Option<String>, body: &str) -> (r: Option<String>)
    ensures
        r is Some <==> (trigger is Some && has_prefix(body@, trigger.unwrap()@)),
        r is Some ==> r.unwrap()@ == pong(),
{
    match trigger {
        Some(t) => if str_starts_with(body, t.as_str()) {
            Some("Pong! 🏓".to_owned())
        } else {
            None
        },
        None => None,
    }
}

// ─── Environment ─────────────────────────────────────────────────────────────

/// An environment value as used: trimmed, and absent when empty.
pub open spec fn env_value_for(raw: Option<Seq<char>>) -> Option<Seq<char>> {
    match raw {
        Some(v) => if trim_seq(v).len() == 0 {
            None
        } else {
            Some(trim_seq(v))
        },
        None => None,
    }
}

/// An environment value as used (see [`env_value_for`]).
pub fn env_opt(raw: Option<String>) -> (v: Option<String>)
    ensures
        crate::postkit::model::opt_view(v) == env_value_for(crate::postkit::model::opt_view(raw)),
{
    match raw {
        Some(r) => {
            let t = trim(chars_of(r.as_str()).as_slice());
            if t.len() == 0 {
                None
            } else {
                Some(string_of(t.as_slice()))
            }
        },
        None => None,
    }
}

/// A required environment value: the trimmed value of variable `name`, or
/// the error `missing env var <name>` when it is unset or blank.
pub fn env_req(name: &str, raw: Option<String>) -> (r: Result<String, String>)
    ensures
        match r {
            Ok(v) => env_value_for(crate::postkit::model::opt_view(raw)) == Some(v@),
            Err(e) => env_value_for(crate::postkit::model::opt_view(raw)) is None
                && e@ == "missing env var "@ + name@,
        },
{
    match env_opt(raw) {
        Some(v) => Ok(v),
        None => Err(concat("missing env var ", name)),
    }
}

/// A base URL without trailing slashes.
pub fn base_url(raw: &str) -> (u: String)
    ensures
        u@ == trim_end_char(raw@, '/'),
{
    trim_end_matches(raw, '/')
}

// ─── Sync position ───────────────────────────────────────────────────────────

/// Where to resume: the stored position, trimmed, when not blank; else the
/// seed; else from the start.
pub open spec fn since_for(stored: Option<Seq<char>>, seed: Option<Seq<char>>) -> Option<Seq<char>> {
    match stored {
        Some(s) => if trim_seq(s).len() > 0 {
            Some(trim_seq(s))
        } else {
            seed
        },
        None => seed,
    }
}

/// Where to resume (see [`since_for`]); `stored` is what the file or the
/// Windmill variable held, if it could be read.
pub fn since_choice(stored: Option<String>, seed: Option<String>) -> (r: Option<String>)
    ensures
        crate::postkit::model::opt_view(r) == since_for(
            crate::postkit::model::opt_view(stored),
            crate::postkit::model::opt_view(seed),
        ),
{
    match stored {
        Some(s) => {
            let t = trim(chars_of(s.as_str()).as_slice());
            if t.len() > 0 {
                Some(string_of(t.as_slice()))
            } else {
                seed
            }
        },
        None => seed,
    }
}

/// The file a new position is written to before it replaces the old one.
pub fn since_temp_path(path: &str) -> (t: String)
    ensures
        t@ == path@ + ".tmp"@,
{
    concat(path, ".tmp")
}

/// The position to save after a response: its `next_batch`, when there is
/// one and it differs from the current position.
pub fn next_since(current: &Option<String>, next_batch: Option<String>) -> (r: Option<String>)
    ensures
        r is Some <==> (next_batch is Some && !(current is Some && current.unwrap()@ == next_batch.unwrap()@)),
        r is Some ==> r.unwrap()@ == next_batch.unwrap()@,
{
    match next_batch {
        Some(n) => {
            let same = match current {
                Some(c) => str_eq(c.as_str(), n.as_str()),
                None => false,
            };
            if same {
                None
            } else {
                Some(n)
            }
        },
        None => None,
    }
}

// ─── Windmill ────────────────────────────────────────────────────────────────

/// Scripts under this path receive every dispatched message.
pub const SUBSCRIBERS_PREFIX: &'static str = "f/matrix_bot/subscribers/";

/// Where the sync position is kept in Windmill.
pub const VAR_SINCE: &'static str = "f/matrix_bot/since_token";

/// Windmill's address for one workspace.
#[derive(Debug)]
pub struct WindmillApi {
    pub base: String,
    pub workspace: String,
}

/// `<base>/api/w/<workspace>/<path>`.
pub open spec fn api_url(base: Seq<char>, workspace: Seq<char>, path: Seq<char>) -> Seq<char> {
    base + "/api/w/"@ + workspace + "/"@ + path
}

impl WindmillApi {
    /// The URL of an API path (see [`api_url`]).
    pub fn url(&self, path: &str) -> (u: String)
        ensures
            u@ == api_url(self.base@, self.workspace@, path@),
    {
        let mut v = chars_of(self.base.as_str());
        push_str(&mut v, "/api/w/");
        push_str(&mut v, self.workspace.as_str());
        push_str(&mut v, "/");
        push_str(&mut v, path);
        string_of(v.as_slice())
    }

    /// Reading a variable's value.
    pub fn get_variable_url(&self, path: &str) -> (u: String)
        ensures
            u@ == api_url(self.base@, self.workspace@, "variables/get_value/"@ + path@),
    {
        self.url(concat("variables/get_value/", path).as_str())
    }

    /// Updating a variable.
    pub fn set_variable_url(&self, path: &str) -> (u: String)
        ensures
            u@ == api_url(self.base@, self.workspace@, "variables/update/"@ + path@),
    {
        self.url(concat("variables/update/", path).as_str())
    }

    /// Running a script without waiting for it.
    pub fn run_async_url(&self, path: &str) -> (u: String)
        ensures
            u@ == api_url(self.base@, self.workspace@, "jobs/run/p/"@ + path@),
    {
        self.url(concat("jobs/run/p/", path).as_str())
    }
}

/// The subscriber scripts among listed script paths: those that are
/// strings under [`SUBSCRIBERS_PREFIX`], in order.
pub open spec fn subscribers_in(paths: Seq<Option<Seq<char>>>) -> Seq<Seq<char>>
    decreases paths.len(),
{
    if paths.len() == 0 {
        Seq::empty()
    } else {
        let rest = subscribers_in(paths.drop_last());
        match paths.last() {
            Some(p) => if has_prefix(p, "f/matrix_bot/subscribers/"@) {
                rest.push(p)
            } else {
                rest
            },
            None => rest,
        }
    }
}

/// The subscriber scripts among listed script paths (see
/// [`subscribers_in`]); `None` stands for an entry whose path is not a
/// string.
pub fn list_subscribers(paths: Vec<Option<String>>) -> (r: Vec<String>)
    ensures
        crate::postkit::model::strs_view(r@) == subscribers_in(
            paths@.map_values(|p: Option<String>| crate::postkit::model::opt_view(p)),
        ),
{
    let ghost ps = paths@.map_values(|p: Option<String>| crate::postkit::model::opt_view(p));
    let mut out: Vec<String> = Vec::new();
    let mut i: usize = 0;
    while i < paths.len()
        invariant
            i <= paths@.len(),
            ps == paths@.map_values(|p: Option<String>| crate::postkit::model::opt_view(p)),
            crate::postkit::model::strs_view(out@) == subscribers_in(ps.subrange(0, i as int)),
        decreases paths@.len() - i,
    {
        let ghost pre = ps.subrange(0, i + 1);
        assert(pre.drop_last() =~= ps.subrange(0, i as int));
        assert(pre.last() == crate::postkit::model::opt_view(paths@[i as int]));
        match &paths[i] {
            Some(p) => {
                if str_starts_with(p.as_str(), SUBSCRIBERS_PREFIX) {
                    let ghost before = out@;
                    out.push(p.clone());
                    assert(crate::postkit::model::strs_view(out@) =~= crate::postkit::model::strs_view(
                        before,
                    ).push(p@));
                }
            },
            None => {},
        }
        i = i + 1;
    }
    assert(ps.subrange(0, i as int) =~= ps);
    out
}

// ─── Replies ─────────────────────────────────────────────────────────────────

/// A lower-case hexadecimal digit.
pub open spec fn is_lower_hex(c: char) -> bool {
    ('0' <= c && c <= '9') || ('a' <= c && c <= 'f')
}

/// A UUID in its hyphenated lower-case form: 36 characters, hyphens at
/// positions 8, 13, 18 and 23, hexadecimal digits elsewhere.
pub open spec fn is_hyphenated_uuid(s: Seq<char>) -> bool {
    &&& s.len() == 36
    &&& forall|i: int|
        0 <= i < 36 ==> if i == 8 || i == 13 || i == 18 || i == 23 {
            #[trigger] s[i] == '-'
        } else {
            is_lower_hex(s[i])
        }
}

/// `uuid::Uuid::new_v4().to_string()`: a random UUID, which the crate
/// prints hyphenated in lower case. It is random; only its shape is claimed.
#[verifier::external_body]
fn random_uuid() -> (r: String)
    ensures
        is_hyphenated_uuid(r@),
{
    uuid::Uuid::new_v4().to_string()
}

/// The endpoint that sends a text message to `room_id` under transaction
/// id `txn`.
pub open spec fn send_url_for(homeserver: Seq<char>, room_id: Seq<char>, txn: Seq<char>) -> Seq<char> {
    homeserver + "/_matrix/client/v3/rooms/"@ + room_id + "/send/m.room.message/"@ + txn
}

/// Where a reply to `room_id` is sent: a fresh random UUID is the
/// transaction id, so each reply is a new message.
pub fn send_text_url(homeserver: &str, room_id: &str) -> (u: String)
    ensures
        exists|txn: Seq<char>| is_hyphenated_uuid(txn) && u@ == send_url_for(homeserver@, room_id@, txn),
{
    let txn = random_uuid();
    let mut v = chars_of(homeserver);
    push_str(&mut v, "/_matrix/client/v3/rooms/");
    push_str(&mut v, room_id);
    push_str(&mut v, "/send/m.room.message/");
    push_str(&mut v, txn.as_str());
    let u = string_of(v.as_slice());
    assert(u@ == send_url_for(homeserver@, room_id@, txn@));
    u
}

/// The job id in a run request's answer: trimmed, without surrounding
/// quotes.
pub fn job_id(answer: &str) -> (id: String)
    ensures
        id@ == trim_char(trim_seq(answer@), '"'),
{
    let t = string_of(trim(chars_of(answer).as_slice()).as_slice());
    trim_matches(t.as_str(), '"')
}

/// The subscriber list is refreshed at most once a minute.
pub const SUBSCRIBERS_TTL_MS: u64 = 60_000;

/// The last known subscriber list and when it was fetched (monotonic
/// milliseconds).
#[derive(Debug)]
pub struct Subscribers {
    paths: Vec<String>,
    fetched_ms: Option<u64>,
}

impl Subscribers {
    /// No list yet.
    pub fn new() -> (s: Subscribers)
        ensures
            s.paths() == Seq::<Seq<char>>::empty(),
            s.fetched() is None,
    {
        let s = Subscribers { paths: Vec::new(), fetched_ms: None };
        assert(crate::postkit::model::strs_view(s.paths@) =~= Seq::<Seq<char>>::empty());
        s
    }

    pub closed spec fn paths(&self) -> Seq<Seq<char>> {
        crate::postkit::model::strs_view(self.paths@)
    }

    pub closed spec fn fetched(&self) -> Option<u64> {
        self.fetched_ms
    }

    /// Whether the list should be fetched again at `now_ms`: never fetched,
    /// or fetched more than a minute ago.
    pub fn is_stale(&self, now_ms: u64) -> (r: bool)
        ensures
            r == match self.fetched() {
                None => true,
                Some(t) => now_ms >= t && now_ms - t > SUBSCRIBERS_TTL_MS,
            },
    {
        match self.fetched_ms {
            None => true,
            Some(t) => now_ms >= t && now_ms - t > SUBSCRIBERS_TTL_MS,
        }
    }

    /// A fetch at `now_ms` returned `paths` (kept), or failed (`None`: the
    /// last list stays).
    pub fn refreshed(&mut self, paths: Option<Vec<String>>, now_ms: u64)
        ensures
            match paths {
                Some(p) => final(self).paths() == crate::postkit::model::strs_view(p@)
                    && final(self).fetched() == Some(now_ms),
                None => final(self).paths() == old(self).paths() && final(self).fetched() == old(self).fetched(),
            },
    {
        match paths {
            Some(p) => {
                self.paths = p;
                self.fetched_ms = Some(now_ms);
            },
            None => {},
        }
    }

    /// The subscriber list.
    pub fn list(&self) -> (r: Vec<String>)
        ensures
            crate::postkit::model::strs_view(r@) == self.paths(),
    {
        let mut out: Vec<String> = Vec::new();
        let mut i: usize = 0;
        while i < self.paths.len()
            invariant
                i <= self.paths@.len(),
                out@.len() == i,
                forall|j: int| 0 <= j < i ==> out@[j]@ == self.paths@[j]@,
            decreases self.paths@.len() - i,
        {
            out.push(self.paths[i].clone());
            i = i + 1;
        }
        assert(crate::postkit::model::strs_view(out@) =~= crate::postkit::model::strs_view(self.paths@));
        out
    }
}

} // verus!
