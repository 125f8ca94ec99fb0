use vstd::prelude::*;

use crate::api::lit;
use crate::app::opt_view;
use crate::collections::KeyMap;
use crate::state::AppAction;
use crate::num::{decimal_text, u64_text};
use crate::text::{str_eq, string_views};

verus! {

// ---------------------------------------------------------------------------
// JSON values
// ---------------------------------------------------------------------------

/// A JSON value, as the gateway sends and receives it.
#[derive(Debug)]
pub enum JsonValue {
    Null,
    Bool(bool),
    /// A number: its value where it is a whole number from 0 to `u64::MAX`, and how it is
    /// written.
    Number(Option<u64>, String),
    Str(String),
    Array(Vec<JsonValue>),
    /// The members of an object, each key once.
    Object(Vec<(String, JsonValue)>),
}

/// The value of the member `key` in the members `es`; `Null` where there is none.
pub open spec fn lookup(es: Seq<(String, JsonValue)>, key: Seq<char>) -> JsonValue
    decreases es.len(),
{
    if es.len() == 0 {
        JsonValue::Null
    } else if es[0].0@ == key {
        es[0].1
    } else {
        lookup(es.drop_first(), key)
    }
}

/// `v[key]`: the member `key` of an object; `Null` for a missing member or another value.
pub open spec fn get(v: JsonValue, key: Seq<char>) -> JsonValue {
    match v {
        JsonValue::Object(es) => lookup(es@, key),
        _ => JsonValue::Null,
    }
}

/// `as_str`: the text of a string value.
pub open spec fn as_str(v: JsonValue) -> Option<Seq<char>> {
    match v {
        JsonValue::Str(s) => Some(s@),
        _ => None,
    }
}

/// `as_u64`: the value of a number that is a whole number in range.
pub open spec fn as_u64(v: JsonValue) -> Option<u64> {
    match v {
        JsonValue::Number(n, _) => n,
        _ => None,
    }
}

/// `as_array`: the items of an array.
pub open spec fn as_array(v: JsonValue) -> Option<Seq<JsonValue>> {
    match v {
        JsonValue::Array(items) => Some(items@),
        _ => None,
    }
}

/// How a number is written (`as_number` then `to_string`).
pub open spec fn number_text(v: JsonValue) -> Option<Seq<char>> {
    match v {
        JsonValue::Number(_, t) => Some(t@),
        _ => None,
    }
}

/// `v[key]`; `None` stands for `Null`.
pub fn get_exec<'a>(v: &'a JsonValue, key: &str) -> (r: Option<&'a JsonValue>)
    ensures
        match r {
            Some(x) => *x == get(*v, key@),
            None => get(*v, key@) == JsonValue::Null,
        },
{
    match v {
        JsonValue::Object(es) => {
            let mut i: usize = 0;
            assert(es@.skip(0) =~= es@);
            while i < es.len()
                invariant
                    i <= es.len(),
                    get(*v, key@) == lookup(es@, key@),
                    lookup(es@, key@) == lookup(es@.skip(i as int), key@),
                decreases es.len() - i,
            {
                assert(es@.skip(i as int).drop_first() =~= es@.skip(i as int + 1));
                assert(es@.skip(i as int)[0] == es@[i as int]);
                if str_eq(es[i].0.as_str(), key) {
                    return Some(&es[i].1);
                }
                i += 1;
            }
            None
        },
        _ => None,
    }
}

/// `v[key].as_str()`.
pub fn get_str(v: &JsonValue, key: &str) -> (r: Option<String>)
    ensures
        opt_view(r) == as_str(get(*v, key@)),
{
    match get_exec(v, key) {
        Some(JsonValue::Str(s)) => Some(s.clone()),
        _ => None,
    }
}

/// `v[key].as_u64()`.
pub fn get_u64(v: &JsonValue, key: &str) -> (r: Option<u64>)
    ensures
        r == as_u64(get(*v, key@)),
{
    match get_exec(v, key) {
        Some(JsonValue::Number(n, _)) => *n,
        _ => None,
    }
}

/// `v[key].as_number()`, written out.
pub fn get_number_text(v: &JsonValue, key: &str) -> (r: Option<String>)
    ensures
        opt_view(r) == number_text(get(*v, key@)),
{
    match get_exec(v, key) {
        Some(JsonValue::Number(_, t)) => Some(t.clone()),
        _ => None,
    }
}

// ---------------------------------------------------------------------------
// Events from the gateway
// ---------------------------------------------------------------------------

/// An event as the gateway sends it.
#[derive(Debug)]
pub struct GatewayEvent {
    pub op: u8,
    pub d: Option<JsonValue>,
    pub s: Option<u64>,
    pub t: Option<String>,
}

/// The heartbeat interval used when the greeting names none.
pub open spec fn default_heartbeat() -> u64 {
    41250
}

/// The heartbeat interval (in milliseconds) from the gateway's greeting: the greeting is
/// an event with op 10, whose data may name the interval; any other first event is an
/// error.
pub fn heartbeat_interval(ev: &GatewayEvent) -> (r: Result<u64, String>)
    requires
        ev.op == 10 ==> ev.d is Some,
    ensures
        match r {
            Ok(n) => ev.op == 10 && n == match as_u64(get(ev.d->0, "heartbeat_interval"@)) {
                Some(k) => k,
                None => default_heartbeat(),
            },
            Err(e) => ev.op != 10 && e@ == "Expected Hello"@,
        },
{
    if ev.op == 10 {
        let d = ev.d.as_ref().unwrap();
        match get_u64(d, "heartbeat_interval") {
            Some(n) => Ok(n),
            None => Ok(41250),
        }
    } else {
        Err(lit("Expected Hello"))
    }
}

/// The sequence number to send with heartbeats after an event: the event's, where it has
/// one.
pub fn next_sequence(current: Option<u64>, ev: &GatewayEvent) -> (r: Option<u64>)
    ensures
        r == match ev.s {
            Some(s) => Some(s),
            None => current,
        },
{
    match ev.s {
        Some(s) => Some(s),
        None => current,
    }
}

/// The name and data of a dispatch event (op 0 with both).
pub fn dispatch_of(ev: GatewayEvent) -> (r: Option<(String, JsonValue)>)
    ensures
        match r {
            Some((t, d)) => ev.op == 0 && ev.t == Some(t) && ev.d == Some(d),
            None => !(ev.op == 0 && ev.t is Some && ev.d is Some),
        },
{
    if ev.op == 0 {
        match (ev.t, ev.d) {
            (Some(t), Some(d)) => Some((t, d)),
            _ => None,
        }
    } else {
        None
    }
}

/// The kinds of dispatch events that the client reads.
#[derive(Debug, Clone, Copy, PartialEq, Eq, Structural)]
pub enum DispatchKind {
    MessageCreate,
    MessageUpdate,
    MessageDelete,
    TypingStart,
    ReadySupplemental,
    PresenceUpdate,
    GuildMembersChunk,
    SessionsReplace,
    Other,
}

pub open spec fn dispatch_kind_spec(t: Seq<char>) -> DispatchKind {
    if t == "MESSAGE_CREATE"@ {
        DispatchKind::MessageCreate
    } else if t == "MESSAGE_UPDATE"@ {
        DispatchKind::MessageUpdate
    } else if t == "MESSAGE_DELETE"@ {
        DispatchKind::MessageDelete
    } else if t == "TYPING_START"@ {
        DispatchKind::TypingStart
    } else if t == "READY_SUPPLEMENTAL"@ {
        DispatchKind::ReadySupplemental
    } else if t == "PRESENCE_UPDATE"@ {
        DispatchKind::PresenceUpdate
    } else if t == "GUILD_MEMBERS_CHUNK"@ {
        DispatchKind::GuildMembersChunk
    } else if t == "SESSIONS_REPLACE"@ {
        DispatchKind::SessionsReplace
    } else {
        DispatchKind::Other
    }
}

/// The kind of a dispatch event, by its name.
pub fn dispatch_kind(t: &str) -> (k: DispatchKind)
    ensures
        k == dispatch_kind_spec(t@),
{
    if str_eq(t, "MESSAGE_CREATE") {
        DispatchKind::MessageCreate
    } else if str_eq(t, "MESSAGE_UPDATE") {
        DispatchKind::MessageUpdate
    } else if str_eq(t, "MESSAGE_DELETE") {
        DispatchKind::MessageDelete
    } else if str_eq(t, "TYPING_START") {
        DispatchKind::TypingStart
    } else if str_eq(t, "READY_SUPPLEMENTAL") {
        DispatchKind::ReadySupplemental
    } else if str_eq(t, "PRESENCE_UPDATE") {
        DispatchKind::PresenceUpdate
    } else if str_eq(t, "GUILD_MEMBERS_CHUNK") {
        DispatchKind::GuildMembersChunk
    } else if str_eq(t, "SESSIONS_REPLACE") {
        DispatchKind::SessionsReplace
    } else {
        DispatchKind::Other
    }
}

/// A deleted message: its id and channel, when the event names both.
pub fn message_delete_action(d: &JsonValue) -> (r: Option<AppAction>)
    ensures
        match (as_str(get(*d, "id"@)), as_str(get(*d, "channel_id"@))) {
            (Some(id), Some(ch)) => r matches Some(AppAction::GatewayMessageDelete(a, b)) && a@ == id && b@ == ch,
            _ => r is None,
        },
{
    match (get_str(d, "id"), get_str(d, "channel_id")) {
        (Some(id), Some(ch)) => Some(AppAction::GatewayMessageDelete(id, ch)),
        _ => None,
    }
}

/// The name shown for someone who starts typing: the guild nickname, else the member's
/// username, else the user's username.
pub open spec fn typist_name(d: JsonValue) -> Option<Seq<char>> {
    match as_str(get(get(d, "member"@), "nick"@)) {
        Some(n) => Some(n),
        None => match as_str(get(get(get(d, "member"@), "user"@), "username"@)) {
            Some(n) => Some(n),
            None => as_str(get(get(d, "user"@), "username"@)),
        },
    }
}

/// Someone starts typing: the channel, the user and the name to show, when the event
/// names the channel, the user and a timestamp.
pub fn typing_start_action(d: &JsonValue) -> (r: Option<AppAction>)
    ensures
        match (as_str(get(*d, "channel_id"@)), as_str(get(*d, "user_id"@)), as_u64(get(*d, "timestamp"@))) {
            (Some(ch), Some(user), Some(_)) => r matches Some(AppAction::GatewayTypingStart(a, b, n)) && a@ == ch
                && b@ == user && opt_view(n) == typist_name(*d),
            _ => r is None,
        },
{
    let ch = get_str(d, "channel_id");
    let user = get_str(d, "user_id");
    let ts = get_u64(d, "timestamp");
    match (ch, user, ts) {
        (Some(ch), Some(user), Some(_)) => {
            let member = get_exec(d, "member");
            let nick = match member {
                Some(m) => get_str(m, "nick"),
                None => None,
            };
            let name = match nick {
                Some(n) => Some(n),
                None => {
                    let from_member = match member {
                        Some(m) => match get_exec(m, "user") {
                            Some(u) => get_str(u, "username"),
                            None => None,
                        },
                        None => None,
                    };
                    match from_member {
                        Some(n) => Some(n),
                        None => match get_exec(d, "user") {
                            Some(u) => get_str(u, "username"),
                            None => None,
                        },
                    }
                },
            };
            Some(AppAction::GatewayTypingStart(ch, user, name))
        },
        _ => None,
    }
}

// ---------------------------------------------------------------------------
// Presences after connecting
// ---------------------------------------------------------------------------

/// The items of the arrays among `gs`, in order.
pub open spec fn flatten_arrays(gs: Seq<JsonValue>) -> Seq<JsonValue>
    decreases gs.len(),
{
    if gs.len() == 0 {
        Seq::empty()
    } else {
        flatten_arrays(gs.drop_last()) + match as_array(gs.last()) {
            Some(us) => us,
            None => Seq::empty(),
        }
    }
}

/// The presences that the event lists: those of each guild, then the friends'.
pub open spec fn ready_presences(d: JsonValue) -> Seq<JsonValue> {
    let mp = get(d, "merged_presences"@);
    (match as_array(get(mp, "guilds"@)) {
        Some(gs) => flatten_arrays(gs),
        None => Seq::empty(),
    }) + match as_array(get(mp, "friends"@)) {
        Some(fs) => fs,
        None => Seq::empty(),
    }
}

/// The statuses after one more presence: its user's status, where it names both.
pub open spec fn status_step(m: Map<Seq<char>, Seq<char>>, u: JsonValue) -> Map<Seq<char>, Seq<char>> {
    match (as_str(get(u, "user_id"@)), as_str(get(u, "status"@))) {
        (Some(id), Some(st)) => m.insert(id, st),
        _ => m,
    }
}

/// User id to status, from the presences in order, the later winning.
pub open spec fn statuses_of(us: Seq<JsonValue>) -> Map<Seq<char>, Seq<char>>
    decreases us.len(),
{
    if us.len() == 0 {
        Map::empty()
    } else {
        status_step(statuses_of(us.drop_last()), us.last())
    }
}

/// The text of a custom status activity (type 4).
pub open spec fn custom_text(a: JsonValue) -> Option<Seq<char>> {
    if as_u64(get(a, "type"@)) == Some(4u64) {
        as_str(get(a, "state"@))
    } else {
        None
    }
}

/// The status texts after the activities `acts` of the user `id`.
pub open spec fn texts_from(m: Map<Seq<char>, Seq<char>>, id: Seq<char>, acts: Seq<JsonValue>) -> Map<Seq<char>, Seq<char>>
    decreases acts.len(),
{
    if acts.len() == 0 {
        m
    } else {
        let m2 = texts_from(m, id, acts.drop_last());
        match custom_text(acts.last()) {
            Some(t) => m2.insert(id, t),
            None => m2,
        }
    }
}

/// The status texts after one more presence.
pub open spec fn text_step(m: Map<Seq<char>, Seq<char>>, u: JsonValue) -> Map<Seq<char>, Seq<char>> {
    match (as_str(get(u, "user_id"@)), as_array(get(u, "activities"@))) {
        (Some(id), Some(acts)) => texts_from(m, id, acts),
        _ => m,
    }
}

/// User id to custom status text, from the presences in order, the later winning.
pub open spec fn texts_of(us: Seq<JsonValue>) -> Map<Seq<char>, Seq<char>>
    decreases us.len(),
{
    if us.len() == 0 {
        Map::empty()
    } else {
        text_step(texts_of(us.drop_last()), us.last())
    }
}

/// Adds one presence to the statuses and status texts.
fn add_presence(statuses: &mut KeyMap<String>, texts: &mut KeyMap<String>, u: &JsonValue)
    ensures
        final(statuses)@ == status_step(old(statuses)@, *u),
        final(texts)@ == text_step(old(texts)@, *u),
{
    let id = get_str(u, "user_id");
    let st = get_str(u, "status");
    match (&id, st) {
        (Some(i), Some(st)) => statuses.insert(i.clone(), st),
        _ => {},
    }
    if let Some(i) = id {
        if let Some(JsonValue::Array(acts)) = get_exec(u, "activities") {
            let mut k: usize = 0;
            while k < acts.len()
                invariant
                    k <= acts.len(),
                    texts@ == texts_from(old(texts)@, i@, acts@.take(k as int)),
                decreases acts.len() - k,
            {
                assert(acts@.take(k as int + 1).drop_last() =~= acts@.take(k as int));
                assert(acts@.take(k as int + 1).last() == acts@[k as int]);
                let a = &acts[k];
                if get_u64(a, "type") == Some(4u64) {
                    if let Some(t) = get_str(a, "state") {
                        texts.insert(i.clone(), t);
                    }
                }
                k += 1;
            }
            assert(acts@.take(acts.len() as int) =~= acts@);
        }
    }
}

/// Adds the presences of an array.
fn add_presences(statuses: &mut KeyMap<String>, texts: &mut KeyMap<String>, us: &Vec<JsonValue>, Ghost(done): Ghost<Seq<JsonValue>>)
    requires
        old(statuses)@ == statuses_of(done),
        old(texts)@ == texts_of(done),
    ensures
        final(statuses)@ == statuses_of(done + us@),
        final(texts)@ == texts_of(done + us@),
{
    let mut j: usize = 0;
    assert(done + us@.take(0) =~= done);
    while j < us.len()
        invariant
            j <= us.len(),
            statuses@ == statuses_of(done + us@.take(j as int)),
            texts@ == texts_of(done + us@.take(j as int)),
        decreases us.len() - j,
    {
        let ghost next = done + us@.take(j as int + 1);
        assert(next.drop_last() =~= done + us@.take(j as int));
        assert(next.last() == us@[j as int]);
        add_presence(statuses, texts, &us[j]);
        j += 1;
    }
    assert(us@.take(us.len() as int) =~= us@);
}

/// The statuses and status texts that the event after connecting lists.
pub fn ready_supplemental_action(d: &JsonValue) -> (r: AppAction)
    ensures
        r matches AppAction::GatewayReadySupplemental(st, tx) && st@ == statuses_of(ready_presences(*d))
            && tx@ == texts_of(ready_presences(*d)),
{
    let mut statuses: KeyMap<String> = KeyMap::new();
    let mut texts: KeyMap<String> = KeyMap::new();
    let ghost mut done: Seq<JsonValue> = Seq::empty();
    let mp = get_exec(d, "merged_presences");
    if let Some(mp) = mp {
        if let Some(JsonValue::Array(gs)) = get_exec(mp, "guilds") {
            let mut i: usize = 0;
            while i < gs.len()
                invariant
                    i <= gs.len(),
                    done == flatten_arrays(gs@.take(i as int)),
                    statuses@ == statuses_of(done),
                    texts@ == texts_of(done),
                decreases gs.len() - i,
            {
                assert(gs@.take(i as int + 1).drop_last() =~= gs@.take(i as int));
                assert(gs@.take(i as int + 1).last() == gs@[i as int]);
                match &gs[i] {
                    JsonValue::Array(us) => {
                        add_presences(&mut statuses, &mut texts, us, Ghost(done));
                        proof {
                            done = done + us@;
                        }
                    },
                    _ => {
                        assert(done + Seq::<JsonValue>::empty() =~= done);
                    },
                }
                i += 1;
            }
            assert(gs@.take(gs.len() as int) =~= gs@);
        }
        if let Some(JsonValue::Array(fs)) = get_exec(mp, "friends") {
            add_presences(&mut statuses, &mut texts, fs, Ghost(done));
            proof {
                done = done + fs@;
            }
        } else {
            assert(done + Seq::<JsonValue>::empty() =~= done);
        }
    }
    assert(done =~= ready_presences(*d));
    AppAction::GatewayReadySupplemental(statuses, texts)
}

// ---------------------------------------------------------------------------
// Guild members
// ---------------------------------------------------------------------------

/// The guild, chunk index and chunk count (as written) of a chunk of guild members, when
/// the event names all three.
pub fn members_chunk_fields(d: &JsonValue) -> (r: Option<(String, String, String)>)
    ensures
        match (as_str(get(*d, "guild_id"@)), number_text(get(*d, "chunk_index"@)), number_text(get(*d, "chunk_count"@))) {
            (Some(g), Some(i), Some(c)) => r matches Some((a, b, e)) && a@ == g && b@ == i && e@ == c,
            _ => r is None,
        },
{
    match (get_str(d, "guild_id"), get_number_text(d, "chunk_index"), get_number_text(d, "chunk_count")) {
        (Some(g), Some(i), Some(c)) => Some((g, i, c)),
        _ => None,
    }
}

/// Every item is a string.
pub open spec fn all_strings(items: Seq<JsonValue>) -> bool {
    forall|i: int| 0 <= i < items.len() ==> #[trigger] as_str(items[i]) is Some
}

/// The texts of items that are all strings.
pub open spec fn strings_of(items: Seq<JsonValue>) -> Seq<Seq<char>> {
    Seq::new(items.len(), |i: int| as_str(items[i])->0)
}

pub open spec fn not_found_prefix() -> Seq<char> {
    "Error in GUILD_MEMBERS_CHUNK event: not found: "@
}

/// The log line for the members that a chunk did not find, when it lists them as an array
/// of strings (an empty one too).
pub fn not_found_log(d: &JsonValue) -> (r: Option<String>)
    ensures
        match as_array(get(*d, "not_found"@)) {
            Some(items) => if all_strings(items) {
                r matches Some(t) && t@ == not_found_prefix() + crate::submit::debug_list(strings_of(items))
            } else {
                r is None
            },
            None => r is None,
        },
{
    let items = match get_exec(d, "not_found") {
        Some(JsonValue::Array(items)) => items,
        _ => return None,
    };
    let mut names: Vec<String> = Vec::new();
    let mut i: usize = 0;
    while i < items.len()
        invariant
            i <= items.len(),
            as_array(get(*d, "not_found"@)) == Some(items@),
            names.len() == i,
            forall|j: int| 0 <= j < i ==> #[trigger] as_str(items@[j]) == Some(names@[j]@),
        decreases items.len() - i,
    {
        match &items[i] {
            JsonValue::Str(s) => names.push(s.clone()),
            _ => {
                assert(as_str(items@[i as int]) is None);
                return None;
            },
        }
        i += 1;
    }
    assert(string_views(names@) =~= strings_of(items@));
    let listed = crate::submit::debug_strings(&names);
    let mut t = lit("Error in GUILD_MEMBERS_CHUNK event: not found: ");
    crate::text::push_all(&mut t, listed.as_str());
    Some(t)
}

// ---------------------------------------------------------------------------
// Requests to the gateway
// ---------------------------------------------------------------------------

/// `v` is an object with exactly the given keys, in this order.
pub open spec fn has_keys(v: JsonValue, keys: Seq<Seq<char>>) -> bool {
    match v {
        JsonValue::Object(es) => es@.len() == keys.len() && forall|i: int| 0 <= i < keys.len() ==> #[trigger] es@[i].0@
            == keys[i],
        _ => false,
    }
}

/// `v` is the number `n`.
pub open spec fn is_num(v: JsonValue, n: u64) -> bool {
    v matches JsonValue::Number(Some(k), t) && k == n && t@ == decimal_text(n as nat)
}

/// A number.
pub fn num(n: u64) -> (v: JsonValue)
    ensures
        is_num(v, n),
{
    JsonValue::Number(Some(n), u64_text(n))
}

/// The request for the members of a guild (op 8): all of them, with no query.
pub open spec fn is_members_request(v: JsonValue, guild_id: Seq<char>) -> bool {
    let d = get(v, "d"@);
    &&& has_keys(v, seq!["op"@, "d"@])
    &&& is_num(get(v, "op"@), 8)
    &&& has_keys(d, seq!["guild_id"@, "query"@, "limit"@])
    &&& as_str(get(d, "guild_id"@)) == Some(guild_id)
    &&& as_str(get(d, "query"@)) == Some(Seq::<char>::empty())
    &&& is_num(get(d, "limit"@), 0)
}

pub fn members_request(guild_id: &str) -> (v: JsonValue)
    ensures
        is_members_request(v, guild_id@),
{
    let mut d: Vec<(String, JsonValue)> = Vec::new();
    d.push((lit("guild_id"), JsonValue::Str(lit(guild_id))));
    d.push((lit("query"), JsonValue::Str(String::new())));
    d.push((lit("limit"), num(0)));
    let mut top: Vec<(String, JsonValue)> = Vec::new();
    top.push((lit("op"), num(8)));
    top.push((lit("d"), JsonValue::Object(d)));
    proof {
        reveal_strlit("guild_id");
        reveal_strlit("query");
        reveal_strlit("limit");
        reveal_strlit("op");
        reveal_strlit("d");
        assert("op"@.len() == 2 && "d"@.len() == 1);
        assert("guild_id"@.len() == 8 && "query"@.len() == 5 && "limit"@.len() == 5);
        assert("query"@[0] == 'q' && "limit"@[0] == 'l');
        assert(top@[0].0@ != "d"@);
        assert(d@[0].0@ != "query"@);
        assert(d@[0].0@ != "limit"@);
        assert(d@[1].0@ != "limit"@);
        assert(d@.drop_first()[0] == d@[1]);
        assert(d@.drop_first().drop_first()[0] == d@[2]);
        assert(top@.drop_first()[0] == top@[1]);
        reveal_with_fuel(lookup, 4);
    }
    let v = JsonValue::Object(top);
    assert(has_keys(v, seq!["op"@, "d"@]));
    let ghost dv = get(v, "d"@);
    assert(has_keys(dv, seq!["guild_id"@, "query"@, "limit"@]));
    assert(as_str(get(dv, "guild_id"@)) == Some(guild_id@));
    assert(as_str(get(dv, "query"@)) == Some(Seq::<char>::empty()));
    assert(is_num(get(dv, "limit"@), 0));
    assert(is_num(get(v, "op"@), 8));
    v
}

/// The range of member list entries asked for: `[[0, 99]]`.
pub open spec fn is_first_hundred(v: JsonValue) -> bool {
    v matches JsonValue::Array(outer) && outer@.len() == 1 && (outer@[0] matches JsonValue::Array(inner)
        && inner@.len() == 2 && is_num(inner@[0], 0) && is_num(inner@[1], 99))
}

/// The subscription to a channel of a guild (op 14), with typing, threads and activities.
pub open spec fn is_subscription(v: JsonValue, guild_id: Seq<char>, channel_id: Seq<char>) -> bool {
    let d = get(v, "d"@);
    &&& has_keys(v, seq!["op"@, "d"@])
    &&& is_num(get(v, "op"@), 14)
    &&& has_keys(d, seq!["guild_id"@, "channels"@, "typing"@, "threads"@, "activities"@])
    &&& as_str(get(d, "guild_id"@)) == Some(guild_id)
    &&& has_keys(get(d, "channels"@), seq![channel_id])
    &&& is_first_hundred(get(get(d, "channels"@), channel_id))
    &&& get(d, "typing"@) == JsonValue::Bool(true)
    &&& get(d, "threads"@) == JsonValue::Bool(true)
    &&& get(d, "activities"@) == JsonValue::Bool(true)
}

pub fn subscription(guild_id: &str, channel_id: &str) -> (v: JsonValue)
    ensures
        is_subscription(v, guild_id@, channel_id@),
{
    let mut inner: Vec<JsonValue> = Vec::new();
    inner.push(num(0));
    inner.push(num(99));
    let mut outer: Vec<JsonValue> = Vec::new();
    outer.push(JsonValue::Array(inner));
    let mut chans: Vec<(String, JsonValue)> = Vec::new();
    chans.push((lit(channel_id), JsonValue::Array(outer)));
    let mut d: Vec<(String, JsonValue)> = Vec::new();
    d.push((lit("guild_id"), JsonValue::Str(lit(guild_id))));
    d.push((lit("channels"), JsonValue::Object(chans)));
    d.push((lit("typing"), JsonValue::Bool(true)));
    d.push((lit("threads"), JsonValue::Bool(true)));
    d.push((lit("activities"), JsonValue::Bool(true)));
    let mut top: Vec<(String, JsonValue)> = Vec::new();
    top.push((lit("op"), num(14)));
    top.push((lit("d"), JsonValue::Object(d)));
    proof {
        reveal_strlit("guild_id");
        reveal_strlit("channels");
        reveal_strlit("typing");
        reveal_strlit("threads");
        reveal_strlit("activities");
        reveal_strlit("op");
        reveal_strlit("d");
        assert("op"@.len() == 2 && "d"@.len() == 1);
        assert("guild_id"@.len() == 8 && "channels"@.len() == 8 && "typing"@.len() == 6);
        assert("threads"@.len() == 7 && "activities"@.len() == 10);
        assert("guild_id"@[0] == 'g' && "channels"@[0] == 'c');
        reveal_with_fuel(lookup, 6);
    }
    let v = JsonValue::Object(top);
    assert(has_keys(v, seq!["op"@, "d"@]));
    v
}

/// The heartbeat (op 1), with the last sequence number seen, or `null` before any.
pub open spec fn is_heartbeat(v: JsonValue, seq: Option<u64>) -> bool {
    &&& has_keys(v, seq!["op"@, "d"@])
    &&& is_num(get(v, "op"@), 1)
    &&& match seq {
        Some(n) => is_num(get(v, "d"@), n),
        None => get(v, "d"@) == JsonValue::Null,
    }
}

pub fn heartbeat(seq: Option<u64>) -> (v: JsonValue)
    ensures
        is_heartbeat(v, seq),
{
    let d = match seq {
        Some(n) => num(n),
        None => JsonValue::Null,
    };
    let mut top: Vec<(String, JsonValue)> = Vec::new();
    top.push((lit("op"), num(1)));
    top.push((lit("d"), d));
    proof {
        reveal_strlit("op");
        reveal_strlit("d");
        assert("op"@.len() == 2 && "d"@.len() == 1);
        reveal_with_fuel(lookup, 3);
    }
    let v = JsonValue::Object(top);
    assert(has_keys(v, seq!["op"@, "d"@]));
    v
}


// ---------------------------------------------------------------------------
// Identifying
// ---------------------------------------------------------------------------

/// The value of the `i`-th member of an object.
pub open spec fn val(v: JsonValue, i: int) -> JsonValue {
    match v {
        JsonValue::Object(es) => es@[i].1,
        _ => JsonValue::Null,
    }
}

/// `v` is the string `t`.
pub open spec fn is_text(v: JsonValue, t: Seq<char>) -> bool {
    as_str(v) == Some(t)
}

/// The client's description of itself: a desktop browser, with the ids of this launch and
/// of its heartbeat session.
pub open spec fn is_client_properties(p: JsonValue, launch_id: Seq<char>, session_id: Seq<char>) -> bool {
    &&& has_keys(
        p,
        seq![
            "os"@, "browser"@, "device"@, "system_locale"@, "browser_user_agent"@, "browser_version"@,
            "os_version"@, "referrer"@, "referring_domain"@, "referrer_current"@,
            "referring_domain_current"@, "release_channel"@, "client_build_number"@,
            "client_event_source"@, "has_client_mods"@, "client_launch_id"@,
            "client_heartbeat_session_id"@,
        ],
    )
    &&& is_text(val(p, 0), "Windows"@)
    &&& is_text(val(p, 1), "Chrome"@)
    &&& is_text(val(p, 2), ""@)
    &&& is_text(val(p, 3), "en-US"@)
    &&& is_text(
        val(p, 4),
        "Mozilla/5.0 (Windows NT 10.0; Win64; x64) AppleWebKit/537.36 (KHTML, like Gecko) Chrome/129.0.0.0 Safari/537.36"@,
    )
    &&& is_text(val(p, 5), "129.0.0.0"@)
    &&& is_text(val(p, 6), "10"@)
    &&& is_text(val(p, 7), ""@)
    &&& is_text(val(p, 8), ""@)
    &&& is_text(val(p, 9), ""@)
    &&& is_text(val(p, 10), ""@)
    &&& is_text(val(p, 11), "stable"@)
    &&& is_num(val(p, 12), 332615)
    &&& val(p, 13) == JsonValue::Null
    &&& val(p, 14) == JsonValue::Bool(false)
    &&& is_text(val(p, 15), launch_id)
    &&& is_text(val(p, 16), session_id)
}

/// The presence sent on identifying: online since 0, no activities, not away.
pub open spec fn is_first_presence(p: JsonValue) -> bool {
    &&& has_keys(p, seq!["status"@, "since"@, "activities"@, "afk"@])
    &&& is_text(val(p, 0), "online"@)
    &&& is_num(val(p, 1), 0)
    &&& as_array(val(p, 2)) == Some(Seq::<JsonValue>::empty())
    &&& val(p, 3) == JsonValue::Bool(false)
}

/// `v` is the number written `-1`.
pub open spec fn is_minus_one(v: JsonValue) -> bool {
    v matches JsonValue::Number(None, t) && t@ == "-1"@
}

/// The state the client starts from: nothing cached.
pub open spec fn is_fresh_client_state(c: JsonValue) -> bool {
    &&& has_keys(
        c,
        seq![
            "guild_versions"@, "highest_last_message_id"@, "read_state_version"@,
            "user_guild_settings_version"@, "user_settings_version"@, "private_channels_version"@,
            "api_code_version"@,
        ],
    )
    &&& has_keys(val(c, 0), Seq::empty())
    &&& is_text(val(c, 1), "0"@)
    &&& is_num(val(c, 2), 0)
    &&& is_minus_one(val(c, 3))
    &&& is_minus_one(val(c, 4))
    &&& is_text(val(c, 5), "0"@)
    &&& is_num(val(c, 6), 0)
}

/// The identification sent after the greeting (op 2): the token, the capabilities
/// 30717, the client's description, its first presence, no compression and a fresh state.
pub open spec fn is_identify(v: JsonValue, token: Seq<char>, launch_id: Seq<char>, session_id: Seq<char>) -> bool {
    let d = val(v, 1);
    &&& has_keys(v, seq!["op"@, "d"@])
    &&& is_num(val(v, 0), 2)
    &&& has_keys(d, seq!["token"@, "capabilities"@, "properties"@, "presence"@, "compress"@, "client_state"@])
    &&& is_text(val(d, 0), token)
    &&& is_num(val(d, 1), 30717)
    &&& is_client_properties(val(d, 2), launch_id, session_id)
    &&& is_first_presence(val(d, 3))
    &&& val(d, 4) == JsonValue::Bool(false)
    &&& is_fresh_client_state(val(d, 5))
}

/// A string value.
fn text(s: &str) -> (v: JsonValue)
    ensures
        is_text(v, s@),
{
    JsonValue::Str(lit(s))
}

fn client_properties(launch_id: &str, session_id: &str) -> (p: JsonValue)
    ensures
        is_client_properties(p, launch_id@, session_id@),
{
    let mut es: Vec<(String, JsonValue)> = Vec::new();
    es.push((lit("os"), text("Windows")));
    es.push((lit("browser"), text("Chrome")));
    es.push((lit("device"), text("")));
    es.push((lit("system_locale"), text("en-US")));
    es.push((
        lit("browser_user_agent"),
        text(
            "Mozilla/5.0 (Windows NT 10.0; Win64; x64) AppleWebKit/537.36 (KHTML, like Gecko) Chrome/129.0.0.0 Safari/537.36",
        ),
    ));
    es.push((lit("browser_version"), text("129.0.0.0")));
    es.push((lit("os_version"), text("10")));
    es.push((lit("referrer"), text("")));
    es.push((lit("referring_domain"), text("")));
    es.push((lit("referrer_current"), text("")));
    es.push((lit("referring_domain_current"), text("")));
    es.push((lit("release_channel"), text("stable")));
    es.push((lit("client_build_number"), num(332615)));
    es.push((lit("client_event_source"), JsonValue::Null));
    es.push((lit("has_client_mods"), JsonValue::Bool(false)));
    es.push((lit("client_launch_id"), text(launch_id)));
    es.push((lit("client_heartbeat_session_id"), text(session_id)));
    JsonValue::Object(es)
}

fn first_presence() -> (p: JsonValue)
    ensures
        is_first_presence(p),
{
    let mut es: Vec<(String, JsonValue)> = Vec::new();
    es.push((lit("status"), text("online")));
    es.push((lit("since"), num(0)));
    es.push((lit("activities"), JsonValue::Array(Vec::new())));
    es.push((lit("afk"), JsonValue::Bool(false)));
    JsonValue::Object(es)
}

fn fresh_client_state() -> (c: JsonValue)
    ensures
        is_fresh_client_state(c),
{
    let mut es: Vec<(String, JsonValue)> = Vec::new();
    es.push((lit("guild_versions"), JsonValue::Object(Vec::new())));
    es.push((lit("highest_last_message_id"), text("0")));
    es.push((lit("read_state_version"), num(0)));
    es.push((lit("user_guild_settings_version"), JsonValue::Number(None, lit("-1"))));
    es.push((lit("user_settings_version"), JsonValue::Number(None, lit("-1"))));
    es.push((lit("private_channels_version"), text("0")));
    es.push((lit("api_code_version"), num(0)));
    JsonValue::Object(es)
}

/// The identification sent after the greeting, for `token`, with the ids of this launch
/// and of its heartbeat session.
pub fn identify(token: &str, launch_id: &str, session_id: &str) -> (v: JsonValue)
    ensures
        is_identify(v, token@, launch_id@, session_id@),
{
    let mut d: Vec<(String, JsonValue)> = Vec::new();
    d.push((lit("token"), text(token)));
    d.push((lit("capabilities"), num(30717)));
    d.push((lit("properties"), client_properties(launch_id, session_id)));
    d.push((lit("presence"), first_presence()));
    d.push((lit("compress"), JsonValue::Bool(false)));
    d.push((lit("client_state"), fresh_client_state()));
    let mut top: Vec<(String, JsonValue)> = Vec::new();
    top.push((lit("op"), num(2)));
    top.push((lit("d"), JsonValue::Object(d)));
    JsonValue::Object(top)
}

} // verus!
