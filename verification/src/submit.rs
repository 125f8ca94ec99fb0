use vstd::prelude::*;

use crate::api::{at_name, dedup, dedup_exec, dm_name, mention_pattern, same_dm, vviews, Emoji, GuildMember, PartialGuild, DM};
use crate::app::{chat_status, App, AppView};
use crate::keys::{fixup_ok, sends_one, settled};
use crate::state::{Step, same_any_channel, same_channel, AnyChannel, InputMode, AppAction, AppState, Channel, ChildChannel, Effect, KeywordAction, LogType, PermissionContext};
use crate::navigate::{name_fits, name_fits_exec, shows_content, shows_content_exec};
use crate::textbuf::{
    byte_len, byte_len_exec, index_at, index_at_exec, insert_char, insert_chars, is_boundary,
    remove_range,
};
use crate::text::{
    chars_of, contains_exec, contains_seq, join_seq, join_strings, lowercase, push_char, str_eq,
    starts_with_seq, str_starts_with, string_of, string_views, to_lowercase, all_alphanumeric,
    all_alphanumeric_exec, find_first, find_from, lemma_find_first_matches, lemma_skip_skip,
    replace_all, replace_all_exec, seq_eq, copy_opt_string,
};

verus! {

// ---------------------------------------------------------------------------
// The lists that Enter picks from
// ---------------------------------------------------------------------------

/// The items of `s` for which `p` holds, in order.
pub open spec fn kept<T>(s: Seq<T>, p: spec_fn(T) -> bool) -> Seq<T>
    decreases s.len(),
{
    if s.len() == 0 {
        Seq::empty()
    } else {
        let r = kept(s.drop_last(), p);
        if p(s.last()) {
            r.push(s.last())
        } else {
            r
        }
    }
}

/// What is kept of a prefix is a prefix of what is kept of the whole.
pub proof fn lemma_kept_prefix<T>(s: Seq<T>, p: spec_fn(T) -> bool, k: int)
    requires
        0 <= k <= s.len(),
    ensures
        kept(s.take(k), p).len() <= kept(s, p).len(),
        forall|j: int| 0 <= j < kept(s.take(k), p).len() ==> #[trigger] kept(s.take(k), p)[j] == kept(s, p)[j],
    decreases s.len() - k,
{
    if k < s.len() {
        lemma_kept_prefix(s, p, k + 1);
        assert(s.take(k + 1).drop_last() =~= s.take(k));
        assert(s.take(k + 1).last() == s[k]);
        let a = kept(s.take(k), p);
        let b = kept(s.take(k + 1), p);
        assert(b == if p(s[k]) {
            a.push(s[k])
        } else {
            a
        });
        assert forall|j: int| 0 <= j < a.len() implies #[trigger] a[j] == kept(s, p)[j] by {
            assert(b[j] == a[j]);
        }
    } else {
        assert(s.take(k) =~= s);
    }
}

/// A direct conversation is listed when its lower-cased name holds the filter.
pub open spec fn dm_pred(filter: Seq<char>) -> spec_fn(DM) -> bool {
    |d: DM| contains_seq(lowercase(dm_name(d)), filter)
}

/// A guild is listed when its lower-cased name holds the filter.
pub open spec fn guild_pred(filter: Seq<char>) -> spec_fn(PartialGuild) -> bool {
    |g: PartialGuild| contains_seq(lowercase(g.name@), filter)
}

/// The `sel`-th listed direct conversation, if there are that many.
pub fn pick_dm(dms: &Vec<DM>, filter: &Vec<char>, sel: usize) -> (r: Option<DM>)
    ensures
        match r {
            Some(d) => sel < kept(dms@, dm_pred(filter@)).len() && same_dm(d, kept(dms@, dm_pred(filter@))[sel as int]),
            None => sel >= kept(dms@, dm_pred(filter@)).len(),
        },
{
    let ghost p = dm_pred(filter@);
    let mut count: usize = 0;
    let mut i: usize = 0;
    while i < dms.len()
        invariant
            i <= dms.len(),
            p == dm_pred(filter@),
            count == kept(dms@.take(i as int), p).len(),
            count <= sel,
        decreases dms.len() - i,
    {
        proof {
            assert(dms@.take(i as int + 1).drop_last() =~= dms@.take(i as int));
            assert(dms@.take(i as int + 1).last() == dms@[i as int]);
        }
        let name = dms[i].get_name();
        let low = to_lowercase(name.as_str());
        let lv = chars_of(low.as_str());
        if contains_exec(&lv, filter) {
            if count == sel {
                proof {
                    lemma_kept_prefix(dms@, p, i as int + 1);
                    assert(kept(dms@.take(i as int + 1), p)[sel as int] == dms@[i as int]);
                }
                return Some(dms[i].copy());
            }
            count += 1;
        }
        i += 1;
    }
    assert(dms@.take(dms.len() as int) =~= dms@);
    None
}

/// The `sel`-th listed guild, if there are that many.
pub fn pick_guild(guilds: &Vec<PartialGuild>, filter: &Vec<char>, sel: usize) -> (r: Option<PartialGuild>)
    ensures
        match r {
            Some(g) => sel < kept(guilds@, guild_pred(filter@)).len() && g == kept(guilds@, guild_pred(filter@))[sel as int],
            None => sel >= kept(guilds@, guild_pred(filter@)).len(),
        },
{
    let ghost p = guild_pred(filter@);
    let mut count: usize = 0;
    let mut i: usize = 0;
    while i < guilds.len()
        invariant
            i <= guilds.len(),
            p == guild_pred(filter@),
            count == kept(guilds@.take(i as int), p).len(),
            count <= sel,
        decreases guilds.len() - i,
    {
        proof {
            assert(guilds@.take(i as int + 1).drop_last() =~= guilds@.take(i as int));
            assert(guilds@.take(i as int + 1).last() == guilds@[i as int]);
        }
        let low = to_lowercase(guilds[i].name.as_str());
        let lv = chars_of(low.as_str());
        if contains_exec(&lv, filter) {
            if count == sel {
                proof {
                    lemma_kept_prefix(guilds@, p, i as int + 1);
                    assert(kept(guilds@.take(i as int + 1), p)[sel as int] == guilds@[i as int]);
                }
                return Some(guilds[i].copy());
            }
            count += 1;
        }
        i += 1;
    }
    assert(guilds@.take(guilds.len() as int) =~= guilds@);
    None
}

/// How many direct conversations are listed under the filter.
pub fn dm_count(dms: &Vec<DM>, filter: &Vec<char>) -> (n: usize)
    ensures
        n == kept(dms@, dm_pred(filter@)).len(),
{
    let ghost p = dm_pred(filter@);
    let mut count: usize = 0;
    let mut i: usize = 0;
    while i < dms.len()
        invariant
            i <= dms.len(),
            p == dm_pred(filter@),
            count == kept(dms@.take(i as int), p).len(),
            count <= i,
        decreases dms.len() - i,
    {
        proof {
            assert(dms@.take(i as int + 1).drop_last() =~= dms@.take(i as int));
            assert(dms@.take(i as int + 1).last() == dms@[i as int]);
        }
        let name = dms[i].get_name();
        let low = to_lowercase(name.as_str());
        let lv = chars_of(low.as_str());
        if contains_exec(&lv, filter) {
            count += 1;
        }
        i += 1;
    }
    assert(dms@.take(dms.len() as int) =~= dms@);
    count
}

/// How many guilds are listed under the filter.
pub fn guild_count(guilds: &Vec<PartialGuild>, filter: &Vec<char>) -> (n: usize)
    ensures
        n == kept(guilds@, guild_pred(filter@)).len(),
{
    let ghost p = guild_pred(filter@);
    let mut count: usize = 0;
    let mut i: usize = 0;
    while i < guilds.len()
        invariant
            i <= guilds.len(),
            p == guild_pred(filter@),
            count == kept(guilds@.take(i as int), p).len(),
            count <= i,
        decreases guilds.len() - i,
    {
        proof {
            assert(guilds@.take(i as int + 1).drop_last() =~= guilds@.take(i as int));
            assert(guilds@.take(i as int + 1).last() == guilds@[i as int]);
        }
        let low = to_lowercase(guilds[i].name.as_str());
        let lv = chars_of(low.as_str());
        if contains_exec(&lv, filter) {
            count += 1;
        }
        i += 1;
    }
    assert(guilds@.take(guilds.len() as int) =~= guilds@);
    count
}

// ---------------------------------------------------------------------------
// Commands
// ---------------------------------------------------------------------------

/// The pieces of `s` between spaces (`str::split(' ')`): one more than there are spaces.
pub open spec fn split_spaces(s: Seq<char>) -> Seq<Seq<char>>
    decreases s.len(),
{
    if s.len() == 0 {
        seq![Seq::empty()]
    } else {
        let r = split_spaces(s.drop_last());
        if s.last() == ' ' {
            r.push(Seq::empty())
        } else {
            r.update(r.len() - 1, r.last().push(s.last()))
        }
    }
}

pub proof fn lemma_split_nonempty(s: Seq<char>)
    ensures
        split_spaces(s).len() >= 1,
    decreases s.len(),
{
    if s.len() > 0 {
        lemma_split_nonempty(s.drop_last());
    }
}

/// The command word: the first piece, lower-cased.
pub open spec fn command_word(input: Seq<char>) -> Seq<char> {
    lowercase(split_spaces(input)[0])
}

/// The arguments: the pieces after the first.
pub open spec fn command_args(input: Seq<char>) -> Seq<Seq<char>> {
    split_spaces(input).skip(1)
}

/// How std's `Debug` writes a list of strings (`format!("{:?}", list)`).
pub uninterp spec fn debug_list(items: Seq<Seq<char>>) -> Seq<char>;

pub open spec fn status_usage_prefix() -> Seq<char> {
    "Failed to change status: Bad usage: \"status <online|dnd|idle|invisible|offline> <text>\": "@
}

/// What a command line asks for: `quit` (or `q`) stops the client, `debug` logs its
/// arguments, `logs` opens the log screen, and `status` changes the user's status and
/// status text, or logs how it is used when either is missing; other words do nothing.
pub open spec fn command_outcome(input: Seq<char>, keyword: Option<KeywordAction>, effects: Seq<Effect>) -> bool {
    let w = command_word(input);
    let args = command_args(input);
    if w == "quit"@ || w == "q"@ {
        keyword matches Some(KeywordAction::Break) && effects.len() == 0
    } else if w == "debug"@ {
        keyword is None && effects.len() == 1 && (effects[0] matches Effect::Log { kind, text } && kind
            == LogType::Debug && text@ == join_seq(args, " "@))
    } else if w == "logs"@ {
        keyword is None && effects.len() == 1 && effects[0] == Effect::Send(AppAction::TransitionToLogs)
    } else if w == "status"@ {
        keyword is None && effects.len() == 1 && if args.len() >= 2 {
            effects[0] matches Effect::SetStatus { status, text } && status@ == args[0] && text@ == args[1]
        } else {
            effects[0] matches Effect::Log { kind, text } && kind == LogType::Error && text@
                == status_usage_prefix() + debug_list(args)
        }
    } else {
        keyword is None && effects.len() == 0
    }
}

/// std's `Debug` on a list of strings: the contract names the text it writes `debug_list`
/// of the strings.
#[verifier::external_body]
pub(crate) fn debug_strings(items: &Vec<String>) -> (r: String)
    ensures
        r@ == debug_list(string_views(items@)),
{
    format!("{:?}", items)
}

/// The log line for a `status` command without both of its arguments, given how the
/// arguments are written out.
pub fn status_usage_error(listed: &str) -> (r: String)
    ensures
        r@ == status_usage_prefix() + listed@,
{
    let mut r = crate::api::lit(
        "Failed to change status: Bad usage: \"status <online|dnd|idle|invisible|offline> <text>\": ",
    );
    crate::text::push_all(&mut r, listed);
    r
}

/// The pieces of `s` between spaces.
pub fn split_spaces_exec(s: &str) -> (r: Vec<String>)
    ensures
        string_views(r@) == split_spaces(s@),
{
    let v = chars_of(s);
    let mut r: Vec<String> = Vec::new();
    r.push(String::new());
    assert(string_views(r@) =~= split_spaces(v@.take(0)));
    let mut i: usize = 0;
    while i < v.len()
        invariant
            i <= v.len(),
            v@ == s@,
            r.len() >= 1,
            string_views(r@) == split_spaces(v@.take(i as int)),
        decreases v.len() - i,
    {
        let ghost t = v@.take(i as int + 1);
        assert(t.drop_last() =~= v@.take(i as int));
        assert(t.last() == v@[i as int]);
        let ghost before = string_views(r@);
        if v[i] == ' ' {
            r.push(String::new());
            assert(string_views(r@) =~= before.push(Seq::empty()));
        } else {
            let last = r.len() - 1;
            let mut piece = String::new();
            std::mem::swap(&mut piece, &mut r[last]);
            push_char(&mut piece, v[i]);
            r.set(last, piece);
            assert(string_views(r@) =~= before.update(before.len() - 1, before.last().push(v@[i as int])));
        }
        i += 1;
    }
    assert(v@.take(v.len() as int) =~= v@);
    r
}

/// Runs a command line: what it asks of the client, and the effects outside.
pub fn handle_command(input: &str) -> (r: (Option<KeywordAction>, Vec<Effect>))
    ensures
        command_outcome(input@, r.0, r.1@),
{
    let mut pieces = split_spaces_exec(input);
    proof {
        lemma_split_nonempty(input@);
    }
    let mut effects: Vec<Effect> = Vec::new();
    let word = to_lowercase(pieces[0].as_str());
    let args: Vec<String> = pieces.split_off(1);
    assert(string_views(args@) =~= command_args(input@));
    let w = word.as_str();
    if str_eq(w, "quit") || str_eq(w, "q") {
        return (Some(KeywordAction::Break), effects);
    }
    if str_eq(w, "debug") {
        effects.push(Effect::Log { kind: LogType::Debug, text: join_strings(&args, " ") });
    } else if str_eq(w, "logs") {
        effects.push(Effect::Send(AppAction::TransitionToLogs));
    } else if str_eq(w, "status") {
        if args.len() >= 2 {
            let status = args[0].clone();
            let text = args[1].clone();
            effects.push(Effect::SetStatus { status, text });
        } else {
            let listed = debug_strings(&args);
            effects.push(Effect::Log { kind: LogType::Error, text: status_usage_error(listed.as_str()) });
        }
    }
    (None, effects)
}

// ---------------------------------------------------------------------------
// Picking an emoji
// ---------------------------------------------------------------------------

/// A named emoji is offered when its name starts with the filter.
pub open spec fn unicode_pred(filter: Seq<char>) -> spec_fn((String, String)) -> bool {
    |e: (String, String)| starts_with_seq(e.0@, filter)
}

/// A guild emoji is offered when its name starts with the filter.
pub open spec fn custom_pred(filter: Seq<char>) -> spec_fn(Emoji) -> bool {
    |e: Emoji| starts_with_seq(e.name@, filter)
}

/// How a guild emoji is written in a message: `<a:name:id>` when animated, else
/// `<:name:id>`.
pub open spec fn custom_emoji_text(e: Emoji) -> Seq<char> {
    seq!['<'] + (if e.animated == Some(true) {
        seq!['a']
    } else {
        Seq::empty()
    }) + seq![':'] + e.name@ + seq![':'] + e.id@ + seq!['>']
}

/// The emoji that the selection points at: the named emojis come first, then the guild's.
pub open spec fn chosen_emoji(s: AppView) -> Option<Seq<char>> {
    let u = kept(s.emoji_map, unicode_pred(s.emoji_filter));
    let c = kept(s.custom_emojis, custom_pred(s.emoji_filter));
    if s.selection_index < u.len() {
        Some(u[s.selection_index as int].1@)
    } else if s.selection_index < u.len() + c.len() {
        Some(custom_emoji_text(c[s.selection_index - u.len()]))
    } else {
        None
    }
}

/// Where the filter text ends: after the `:` at `start` and the filter.
pub open spec fn filter_end(s: AppView, start: usize) -> int {
    start + 1 + byte_len(s.emoji_filter)
}

/// Picking an emoji does not overflow.
pub open spec fn emoji_submit_ok(s: AppView) -> bool {
    match s.emoji_filter_start {
        None => true,
        Some(st) => filter_end(s, st) <= usize::MAX && byte_len(s.input) <= usize::MAX && (chosen_emoji(s) matches Some(t)
            ==> st + byte_len(t) + 1 <= usize::MAX),
    }
}

/// The `:filter` text replaced by the chosen emoji and a space, the cursor after them;
/// unchanged when nothing is chosen or the positions are not boundaries.
pub open spec fn with_emoji(s: AppView, st: usize) -> AppView {
    let end = filter_end(s, st);
    match chosen_emoji(s) {
        Some(t) => if is_boundary(s.input, st as int) && is_boundary(s.input, end) {
            AppView {
                input: s.input.take(index_at(s.input, st as int)) + t + seq![' '] + s.input.skip(index_at(s.input, end)),
                cursor_position: (st + byte_len(t) + 1) as usize,
                ..s
            }
        } else {
            s
        },
        None => s,
    }
}

/// The state after Enter in the emoji list of the conversation `ch`: the chosen emoji goes
/// into the text and the chat comes back; nothing happens when the filter's start is not
/// known.
pub open spec fn after_emoji_submit(s: AppView, ch: Box<AnyChannel>) -> AppView {
    match s.emoji_filter_start {
        None => s,
        Some(st) => AppView {
            state: AppState::Chatting(ch),
            emoji_filter: Seq::empty(),
            emoji_filter_start: None,
            emoji_index: 0,
            status_message: chat_status(),
            ..with_emoji(s, st)
        },
    }
}

/// How many named emojis are offered.
fn unicode_count(m: &Vec<(String, String)>, filter: &str) -> (n: usize)
    ensures
        n == kept(m@, unicode_pred(filter@)).len(),
{
    let ghost p = unicode_pred(filter@);
    let mut n: usize = 0;
    let mut i: usize = 0;
    while i < m.len()
        invariant
            i <= m.len(),
            p == unicode_pred(filter@),
            n == kept(m@.take(i as int), p).len(),
            n <= i,
        decreases m.len() - i,
    {
        proof {
            assert(m@.take(i as int + 1).drop_last() =~= m@.take(i as int));
            assert(m@.take(i as int + 1).last() == m@[i as int]);
        }
        if str_starts_with(m[i].0.as_str(), filter) {
            n += 1;
        }
        i += 1;
    }
    assert(m@.take(m.len() as int) =~= m@);
    n
}

/// The `sel`-th offered named emoji.
fn pick_unicode(m: &Vec<(String, String)>, filter: &str, sel: usize) -> (r: Option<String>)
    ensures
        match r {
            Some(t) => sel < kept(m@, unicode_pred(filter@)).len() && t@ == kept(m@, unicode_pred(filter@))[sel as int].1@,
            None => sel >= kept(m@, unicode_pred(filter@)).len(),
        },
{
    let ghost p = unicode_pred(filter@);
    let mut count: usize = 0;
    let mut i: usize = 0;
    while i < m.len()
        invariant
            i <= m.len(),
            p == unicode_pred(filter@),
            count == kept(m@.take(i as int), p).len(),
            count <= sel,
        decreases m.len() - i,
    {
        proof {
            assert(m@.take(i as int + 1).drop_last() =~= m@.take(i as int));
            assert(m@.take(i as int + 1).last() == m@[i as int]);
        }
        if str_starts_with(m[i].0.as_str(), filter) {
            if count == sel {
                proof {
                    lemma_kept_prefix(m@, p, i as int + 1);
                    assert(kept(m@.take(i as int + 1), p)[sel as int] == m@[i as int]);
                }
                return Some(m[i].1.clone());
            }
            count += 1;
        }
        i += 1;
    }
    assert(m@.take(m.len() as int) =~= m@);
    None
}

/// How the `sel`-th offered guild emoji is written in a message.
fn pick_custom(m: &Vec<Emoji>, filter: &str, sel: usize) -> (r: Option<String>)
    ensures
        match r {
            Some(t) => sel < kept(m@, custom_pred(filter@)).len() && t@ == custom_emoji_text(kept(m@, custom_pred(filter@))[sel as int]),
            None => sel >= kept(m@, custom_pred(filter@)).len(),
        },
{
    let ghost p = custom_pred(filter@);
    let mut count: usize = 0;
    let mut i: usize = 0;
    while i < m.len()
        invariant
            i <= m.len(),
            p == custom_pred(filter@),
            count == kept(m@.take(i as int), p).len(),
            count <= sel,
        decreases m.len() - i,
    {
        proof {
            assert(m@.take(i as int + 1).drop_last() =~= m@.take(i as int));
            assert(m@.take(i as int + 1).last() == m@[i as int]);
        }
        if str_starts_with(m[i].name.as_str(), filter) {
            if count == sel {
                proof {
                    lemma_kept_prefix(m@, p, i as int + 1);
                    assert(kept(m@.take(i as int + 1), p)[sel as int] == m@[i as int]);
                }
                return Some(emoji_text(&m[i]));
            }
            count += 1;
        }
        i += 1;
    }
    assert(m@.take(m.len() as int) =~= m@);
    None
}

/// How a guild emoji is written in a message.
pub fn emoji_text(e: &Emoji) -> (r: String)
    ensures
        r@ == custom_emoji_text(*e),
{
    let mut r = crate::api::lit("<");
    if e.animated == Some(true) {
        push_char(&mut r, 'a');
    }
    push_char(&mut r, ':');
    crate::text::push_all(&mut r, e.name.as_str());
    push_char(&mut r, ':');
    crate::text::push_all(&mut r, e.id.as_str());
    push_char(&mut r, '>');
    proof {
        reveal_strlit("<");
    }
    assert(r@ =~= custom_emoji_text(*e));
    r
}

impl App {
    /// The emoji that the selection points at, as written in a message.
    pub(crate) fn chosen_emoji_exec(&self) -> (r: Option<String>)
        ensures
            match r {
                Some(t) => chosen_emoji(self@) == Some(t@),
                None => chosen_emoji(self@) is None,
            },
    {
        let sel = self.selection_index;
        match pick_unicode(&self.emoji_map, self.emoji_filter.as_str(), sel) {
            Some(t) => Some(t),
            None => {
                let nu = unicode_count(&self.emoji_map, self.emoji_filter.as_str());
                pick_custom(&self.custom_emojis, self.emoji_filter.as_str(), sel - nu)
            },
        }
    }

    /// Replaces the bytes `st..end` of the input by `t` and a space, and puts the cursor
    /// after them, where both are boundaries.
    fn put_emoji(&mut self, st: usize, end: usize, t: String)
        requires
            st <= end,
            byte_len(old(self)@.input) <= usize::MAX,
            st + byte_len(t@) + 1 <= usize::MAX,
        ensures
            final(self)@ == if is_boundary(old(self)@.input, st as int) && is_boundary(old(self)@.input, end as int) {
                AppView {
                    input: old(self)@.input.take(index_at(old(self)@.input, st as int)) + t@ + seq![' ']
                        + old(self)@.input.skip(index_at(old(self)@.input, end as int)),
                    cursor_position: (st + byte_len(t@) + 1) as usize,
                    ..old(self)@
                }
            } else {
                old(self)@
            },
    {
        let mut v = chars_of(self.input.as_str());
        let a = index_at_exec(&v, st);
        let b = index_at_exec(&v, end);
        if a.is_some() && b.is_some() {
            let a = a.unwrap();
            let b = b.unwrap();
            proof {
                if b < a {
                    crate::textbuf::lemma_offset_strict(v@, b as int, a as int);
                }
            }
            let tv = chars_of(t.as_str());
            let tlen = byte_len_exec(&tv);
            splice(&mut v, a, b, &tv);
            self.input = string_of(&v);
            self.cursor_position = st + tlen + 1;
        }
        assert(self@ =~= if is_boundary(old(self)@.input, st as int) && is_boundary(old(self)@.input, end as int) {
            AppView {
                input: old(self)@.input.take(index_at(old(self)@.input, st as int)) + t@ + seq![' ']
                    + old(self)@.input.skip(index_at(old(self)@.input, end as int)),
                cursor_position: (st + byte_len(t@) + 1) as usize,
                ..old(self)@
            }
        } else {
            old(self)@
        });
    }

    /// Enter in the emoji list of the conversation `ch` (taken out of the state).
    fn submit_emoji(&mut self, ch: Box<AnyChannel>)
        requires
            old(self)@.state == AppState::Home,
            emoji_submit_ok(old(self)@),
        ensures
            final(self)@ == after_emoji_submit(AppView { state: AppState::EmojiSelection(ch), ..old(self)@ }, ch),
    {
        let ghost s0 = AppView { state: AppState::EmojiSelection(ch), ..self@ };
        let st = match self.emoji_filter_start {
            None => {
                self.state = AppState::EmojiSelection(ch);
                assert(self@ =~= s0);
                return;
            },
            Some(st) => st,
        };
        let fv = chars_of(self.emoji_filter.as_str());
        let flen = byte_len_exec(&fv);
        let end = st + 1 + flen;
        if let Some(t) = self.chosen_emoji_exec() {
            self.put_emoji(st, end, t);
        }
        let ghost s1 = self@;
        assert(AppView { state: AppState::EmojiSelection(ch), ..s1 } == with_emoji(s0, st));
        self.state = AppState::Chatting(ch);
        self.emoji_filter = String::new();
        self.emoji_filter_start = None;
        self.emoji_index = 0;
        self.status_message = crate::api::lit(
            "Chatting in channel. Press Enter to send message, Esc to return to channels.",
        );
        assert(self@ =~= after_emoji_submit(s0, ch));
    }
}

/// `v[..a]`, then `t` and a space, then `v[b..]`.
fn splice(v: &mut Vec<char>, a: usize, b: usize, t: &Vec<char>)
    requires
        a <= b <= old(v).len(),
    ensures
        final(v)@ == old(v)@.take(a as int) + t@ + seq![' '] + old(v)@.skip(b as int),
{
    remove_range(v, a, b);
    insert_chars(v, a, t);
    assert(v.len() == old(v).len() - (b - a) + t.len());
    insert_char(v, a + t.len(), ' ');
    let ghost mid = old(v)@.take(a as int) + old(v)@.skip(b as int);
    assert(mid.take(a as int) =~= old(v)@.take(a as int));
    assert(mid.skip(a as int) =~= old(v)@.skip(b as int));
    let ghost w = mid.take(a as int) + t@ + mid.skip(a as int);
    assert(w.take(a + t.len()) =~= old(v)@.take(a as int) + t@);
    assert(w.skip(a + t.len()) =~= old(v)@.skip(b as int));
    assert(v@ =~= old(v)@.take(a as int) + t@ + seq![' '] + old(v)@.skip(b as int));
}

// ---------------------------------------------------------------------------
// Sending a message: `@name` becomes a mention
// ---------------------------------------------------------------------------

/// A scanned name is kept when it is all ASCII letters and digits.
pub open spec fn keep_member(m: Seq<char>) -> Seq<Seq<char>> {
    if all_alphanumeric(m) {
        seq![m]
    } else {
        Seq::empty()
    }
}

/// The names that follow an `@` in a message about to be sent, in order: after each `@`,
/// the text up to the next space, and the scan goes on from that space. Where no space
/// follows the last `@`, the rest of the text is taken when that `@` starts what is left;
/// otherwise the scan reads past the end of the text, and there is no result.
pub open spec fn mention_scan(t: Seq<char>) -> Option<Seq<Seq<char>>>
    decreases t.len(),
{
    match find_first(t, seq!['@']) {
        None => Some(Seq::empty()),
        Some(i) => {
            proof {
                lemma_find_first_matches(t, seq!['@']);
            }
            let after = t.skip(i + 1);
            match find_first(after, seq![' ']) {
                Some(e) => {
                    proof {
                        lemma_find_first_matches(after, seq![' ']);
                    }
                    match mention_scan(after.skip(e)) {
                        None => None,
                        Some(r) => Some(keep_member(after.take(e)) + r),
                    }
                },
                None => if i == 0 {
                    Some(keep_member(after))
                } else {
                    None
                },
            }
        },
    }
}

/// The user id of the first guild member with the given username.
pub open spec fn member_id(gms: Seq<GuildMember>, name: Seq<char>) -> Option<Seq<char>>
    decreases gms.len(),
{
    if gms.len() == 0 {
        None
    } else if gms[0].user.username@ == name {
        Some(gms[0].user.id@)
    } else {
        member_id(gms.drop_first(), name)
    }
}

/// Each name that belongs to a guild member, in turn, has every `@name` replaced by the
/// mention `<@id>`.
pub open spec fn fold_mentions(s: Seq<char>, names: Seq<Seq<char>>, gms: Seq<GuildMember>) -> Seq<char>
    decreases names.len(),
{
    if names.len() == 0 {
        s
    } else {
        let prev = fold_mentions(s, names.drop_last(), gms);
        match member_id(gms, names.last()) {
            Some(id) => replace_all(prev, seq!['@'] + names.last(), seq!['<', '@'] + id + seq!['>']),
            None => prev,
        }
    }
}

/// The text that is sent for `content`: every `@name` of a guild member becomes a
/// mention. The names are taken in the order in which they first occur.
pub open spec fn outgoing_text(content: Seq<char>, gms: Seq<GuildMember>) -> Seq<char> {
    match mention_scan(content) {
        Some(names) => fold_mentions(content, dedup(names), gms),
        None => content,
    }
}

/// The names that the scan of an outgoing message finds, if it does not fail.
pub fn mention_scan_exec(v: &Vec<char>) -> (r: Option<Vec<Vec<char>>>)
    ensures
        match r {
            Some(names) => mention_scan(v@) == Some(vviews(names@)),
            None => mention_scan(v@) is None,
        },
{
    let mut at: Vec<char> = Vec::new();
    at.push('@');
    let mut sp: Vec<char> = Vec::new();
    sp.push(' ');
    assert(at@ =~= seq!['@']);
    assert(sp@ =~= seq![' ']);
    let mut names: Vec<Vec<char>> = Vec::new();
    let mut pos: usize = 0;
    assert(v@.skip(0) =~= v@);
    assert(vviews(names@) + Seq::<Seq<char>>::empty() =~= vviews(names@));
    loop
        invariant
            pos <= v.len(),
            at@ == seq!['@'],
            sp@ == seq![' '],
            match mention_scan(v@.skip(pos as int)) {
                Some(rest) => mention_scan(v@) == Some(vviews(names@) + rest),
                None => mention_scan(v@) is None,
            },
        decreases v.len() - pos,
    {
        let ghost t = v@.skip(pos as int);
        match find_from(v, &at, pos) {
            None => {
                assert(vviews(names@) + Seq::<Seq<char>>::empty() =~= vviews(names@));
                return Some(names);
            },
            Some(i) => {
                proof {
                    lemma_find_first_matches(t, seq!['@']);
                    lemma_skip_skip(v@, pos as int, (i - pos) + 1);
                }
                let start = i + 1;
                let ghost after = t.skip((i - pos) + 1);
                assert(after == v@.skip(start as int));
                match find_from(v, &sp, start) {
                    Some(e) => {
                        proof {
                            lemma_find_first_matches(after, seq![' ']);
                            lemma_skip_skip(v@, start as int, e - start);
                        }
                        let ghost member = after.take(e - start);
                        assert(member =~= v@.subrange(start as int, e as int));
                        let ghost before = vviews(names@);
                        if all_alphanumeric_exec(v, start, e) {
                            names.push(slice_of(v, start, e));
                            assert(vviews(names@) =~= before + seq![member]);
                        }
                        proof {
                            match mention_scan(after.skip(e - start)) {
                                Some(rest) => {
                                    assert(before + (keep_member(member) + rest) =~= vviews(names@) + rest);
                                },
                                None => {},
                            }
                        }
                        pos = e;
                    },
                    None => {
                        if i == pos {
                            let ghost before = vviews(names@);
                            assert(after =~= v@.subrange(start as int, v.len() as int));
                            if all_alphanumeric_exec(v, start, v.len()) {
                                names.push(slice_of(v, start, v.len()));
                                assert(vviews(names@) =~= before + seq![after]);
                            } else {
                                assert(vviews(names@) =~= before + Seq::<Seq<char>>::empty());
                            }
                            return Some(names);
                        } else {
                            return None;
                        }
                    },
                }
            },
        }
    }
}

/// The characters `v[from..to]`.
fn slice_of(v: &Vec<char>, from: usize, to: usize) -> (r: Vec<char>)
    requires
        from <= to <= v.len(),
    ensures
        r@ == v@.subrange(from as int, to as int),
{
    let mut r: Vec<char> = Vec::new();
    let mut k = from;
    while k < to
        invariant
            from <= k <= to <= v.len(),
            r@ == v@.subrange(from as int, k as int),
        decreases to - k,
    {
        r.push(v[k]);
        assert(v@.subrange(from as int, k as int + 1) =~= v@.subrange(from as int, k as int).push(v@[k as int]));
        k += 1;
    }
    r
}

/// The user id of the first guild member with the given username.
fn member_id_exec(gms: &Vec<GuildMember>, name: &Vec<char>) -> (r: Option<Vec<char>>)
    ensures
        match r {
            Some(id) => member_id(gms@, name@) == Some(id@),
            None => member_id(gms@, name@) is None,
        },
{
    let mut i: usize = 0;
    assert(gms@.skip(0) =~= gms@);
    while i < gms.len()
        invariant
            i <= gms.len(),
            member_id(gms@, name@) == member_id(gms@.skip(i as int), name@),
        decreases gms.len() - i,
    {
        let ghost rest = gms@.skip(i as int);
        assert(rest.drop_first() =~= gms@.skip(i as int + 1));
        assert(rest[0] == gms@[i as int]);
        let un = chars_of(gms[i].user.username.as_str());
        if seq_eq(&un, name) {
            return Some(chars_of(gms[i].user.id.as_str()));
        }
        i += 1;
    }
    None
}

/// The text that is sent for `content`, given the guild's members; `None` where the scan
/// for names fails.
pub fn outgoing_text_exec(content: &str, gms: &Vec<GuildMember>) -> (r: Option<String>)
    ensures
        match r {
            Some(t) => mention_scan(content@) is Some && t@ == outgoing_text(content@, gms@),
            None => mention_scan(content@) is None,
        },
{
    let v = chars_of(content);
    let found = match mention_scan_exec(&v) {
        None => return None,
        Some(f) => f,
    };
    let names = dedup_exec(&found);
    let ghost ns = vviews(names@);
    let mut cur = v.clone();
    assert(cur@ == v@);
    let mut i: usize = 0;
    while i < names.len()
        invariant
            i <= names.len(),
            ns == vviews(names@),
            cur@ == fold_mentions(v@, ns.take(i as int), gms@),
        decreases names.len() - i,
    {
        assert(ns.take(i as int + 1).drop_last() =~= ns.take(i as int));
        assert(ns.take(i as int + 1).last() == names@[i as int]@);
        match member_id_exec(gms, &names[i]) {
            Some(id) => {
                let pat = at_name(&names[i]);
                let mut open: Vec<char> = Vec::new();
                open.push('<');
                open.push('@');
                assert(open@ =~= seq!['<', '@']);
                let rep = mention_pattern(&open, &id);
                cur = replace_all_exec(&cur, &pat, &rep);
            },
            None => {},
        }
        i += 1;
    }
    assert(ns.take(names.len() as int) =~= ns);
    Some(string_of(&cur))
}

// ---------------------------------------------------------------------------
// The channel list that Enter picks from
// ---------------------------------------------------------------------------

/// A channel of a category, as a list entry.
pub open spec fn child_as_channel(c: ChildChannel) -> Channel {
    Channel { id: c.id, name: c.name, channel_type: c.channel_type, guild_id: c.guild_id, children: None }
}

/// The listed channels of a category.
pub open spec fn shown_child_list(cs: Seq<ChildChannel>, ctx: Option<PermissionContext>, filter: Seq<char>) -> Seq<Channel>
    decreases cs.len(),
{
    if cs.len() == 0 {
        Seq::empty()
    } else {
        shown_child_list(cs.drop_last(), ctx, filter) + if shows_content(cs.last().id@, cs.last().name@, ctx, filter) {
            seq![child_as_channel(cs.last())]
        } else {
            Seq::empty()
        }
    }
}

/// Whether Enter's list holds a channel: a channel without children when it is readable
/// and fits the filter; a category when its name fits the filter or one of its channels
/// is listed.
pub open spec fn listed_channel(c: Channel, ctx: Option<PermissionContext>, filter: Seq<char>) -> bool {
    if c.children is None && c.channel_type != 4 {
        shows_content(c.id@, c.name@, ctx, filter)
    } else if c.channel_type == 4 {
        name_fits(c.name@, filter) || (c.children matches Some(cs) && shown_child_list(cs@, ctx, filter).len() > 0)
    } else {
        false
    }
}

/// The entries that a channel makes in Enter's list: itself, then its listed channels.
pub open spec fn channel_entry_list(c: Channel, ctx: Option<PermissionContext>, filter: Seq<char>) -> Seq<Channel> {
    if listed_channel(c, ctx, filter) {
        match c.children {
            Some(cs) => seq![c] + shown_child_list(cs@, ctx, filter),
            None => seq![c],
        }
    } else {
        Seq::empty()
    }
}

/// Enter's list of channels.
pub open spec fn submit_entries(cs: Seq<Channel>, ctx: Option<PermissionContext>, filter: Seq<char>) -> Seq<Channel>
    decreases cs.len(),
{
    if cs.len() == 0 {
        Seq::empty()
    } else {
        submit_entries(cs.drop_last(), ctx, filter) + channel_entry_list(cs.last(), ctx, filter)
    }
}

/// The two lists hold the same channels.
pub open spec fn same_channels(a: Seq<Channel>, b: Seq<Channel>) -> bool {
    a.len() == b.len() && forall|j: int| 0 <= j < a.len() ==> same_channel(#[trigger] a[j], b[j])
}

/// A channel of a category, as a list entry.
fn child_entry(c: &ChildChannel) -> (r: Channel)
    ensures
        r == child_as_channel(*c),
{
    Channel {
        id: c.id.clone(),
        name: c.name.clone(),
        channel_type: c.channel_type,
        guild_id: copy_opt_string(&c.guild_id),
        children: None,
    }
}

/// Appends the listed channels of a category.
fn push_shown_children(out: &mut Vec<Channel>, cs: &Vec<ChildChannel>, ctx: &Option<PermissionContext>, filter: &Vec<char>)
    ensures
        final(out)@ == old(out)@ + shown_child_list(cs@, *ctx, filter@),
{
    let mut i: usize = 0;
    while i < cs.len()
        invariant
            i <= cs.len(),
            out@ == old(out)@ + shown_child_list(cs@.take(i as int), *ctx, filter@),
        decreases cs.len() - i,
    {
        let ghost t = cs@.take(i as int + 1);
        assert(t.drop_last() =~= cs@.take(i as int));
        assert(t.last() == cs@[i as int]);
        let ghost before = out@;
        if shows_content_exec(cs[i].id.as_str(), cs[i].name.as_str(), ctx, filter) {
            out.push(child_entry(&cs[i]));
            assert(out@ =~= old(out)@ + shown_child_list(t, *ctx, filter@));
        } else {
            assert(out@ =~= old(out)@ + shown_child_list(t, *ctx, filter@));
        }
        i += 1;
    }
    assert(cs@.take(cs.len() as int) =~= cs@);
}

/// Enter's list of channels, as copies.
pub fn submit_entries_exec(cs: &Vec<Channel>, ctx: &Option<PermissionContext>, filter: &Vec<char>) -> (r: Vec<Channel>)
    ensures
        same_channels(r@, submit_entries(cs@, *ctx, filter@)),
{
    let mut out: Vec<Channel> = Vec::new();
    let mut i: usize = 0;
    while i < cs.len()
        invariant
            i <= cs.len(),
            same_channels(out@, submit_entries(cs@.take(i as int), *ctx, filter@)),
        decreases cs.len() - i,
    {
        let ghost t = cs@.take(i as int + 1);
        assert(t.drop_last() =~= cs@.take(i as int));
        assert(t.last() == cs@[i as int]);
        let ghost prev = submit_entries(cs@.take(i as int), *ctx, filter@);
        let c = &cs[i];
        let mut part: Vec<Channel> = Vec::new();
        let mut shown: Vec<Channel> = Vec::new();
        if let Some(children) = &c.children {
            push_shown_children(&mut shown, children, ctx, filter);
            assert(shown@ =~= shown_child_list(children@, *ctx, filter@));
        }
        let listed = if c.children.is_none() && c.channel_type != 4 {
            shows_content_exec(c.id.as_str(), c.name.as_str(), ctx, filter)
        } else if c.channel_type == 4 {
            name_fits_exec(c.name.as_str(), filter) || shown.len() > 0
        } else {
            false
        };
        if listed {
            part.push(c.copy());
            part.append(&mut shown);
        }
        assert(same_channels(part@, channel_entry_list(*c, *ctx, filter@))) by {
            if listed {
                assert forall|j: int| 0 <= j < part@.len() implies same_channel(
                    #[trigger] part@[j],
                    channel_entry_list(*c, *ctx, filter@)[j],
                ) by {
                    if j > 0 {
                        let cs2 = c.children->0;
                        assert(channel_entry_list(*c, *ctx, filter@)[j] == shown_child_list(cs2@, *ctx, filter@)[j - 1]);
                    }
                }
            }
        }
        let ghost before = out@;
        let ghost partv = part@;
        out.append(&mut part);
        assert(out@ =~= before + partv);
        assert(same_channels(out@, submit_entries(t, *ctx, filter@))) by {
            let e = submit_entries(t, *ctx, filter@);
            assert(e == prev + channel_entry_list(*c, *ctx, filter@));
            assert forall|j: int| 0 <= j < out@.len() implies same_channel(#[trigger] out@[j], e[j]) by {
                if j < before.len() {
                    assert(out@[j] == before[j]);
                } else {
                    assert(out@[j] == partv[j - before.len()]);
                }
            }
        }
        i += 1;
    }
    assert(cs@.take(cs.len() as int) =~= cs@);
    out
}

// ---------------------------------------------------------------------------
// Enter
// ---------------------------------------------------------------------------

/// The command or search line is submitted in vim mode.
pub open spec fn in_line(s: AppView) -> bool {
    s.vim_mode && (s.mode == InputMode::Command || s.mode == InputMode::Search)
}

/// Submitting the line brings the saved input back.
pub open spec fn line_restored(s: AppView) -> AppView {
    AppView {
        input: match s.saved_input {
            Some(t) => t,
            None => Seq::empty(),
        },
        saved_input: None,
        ..s
    }
}

/// The command stops the client.
pub open spec fn quits(input: Seq<char>) -> bool {
    command_word(input) == "quit"@ || command_word(input) == "q"@
}

/// The state after the command or search line is submitted: the search line becomes the
/// list filter; the mode goes back to normal unless the command stops the client.
pub open spec fn after_line(s: AppView) -> AppView {
    let s1 = settled(line_restored(s));
    if s.mode == InputMode::Command {
        if quits(s.input) {
            s1
        } else {
            AppView { mode: InputMode::Normal, ..s1 }
        }
    } else {
        AppView { search_input: s.input, mode: InputMode::Normal, ..s1 }
    }
}

/// What submitting the line asks for: what the command asks for; nothing for a search.
pub open spec fn line_outcome(s: AppView, keyword: Option<KeywordAction>, effects: Seq<Effect>) -> bool {
    if s.mode == InputMode::Command {
        command_outcome(s.input, keyword, effects)
    } else {
        keyword is None && effects.len() == 0
    }
}

/// The list filter, lower-cased.
pub open spec fn list_filter(s: AppView) -> Seq<char> {
    lowercase(s.search_input)
}

pub open spec fn dm_list(s: AppView) -> Seq<DM> {
    kept(s.dms, dm_pred(list_filter(s)))
}

pub open spec fn guild_list(s: AppView) -> Seq<PartialGuild> {
    kept(s.guilds, guild_pred(list_filter(s)))
}

pub open spec fn channel_list(s: AppView) -> Seq<Channel> {
    submit_entries(s.channels, s.context, list_filter(s))
}

/// Whom a direct conversation is loaded for, in the status line.
pub open spec fn recipient_label(d: DM) -> Seq<char> {
    if d.recipients.len() == 0 {
        "Empty"@
    } else {
        d.recipients@[0].username@
    }
}

pub open spec fn loading_messages_for(name: Seq<char>) -> Seq<char> {
    "Loading messages for "@ + name + "..."@
}

/// Enter picks a channel: the selection is in the list and is not a category.
pub open spec fn picks_channel(s: AppView) -> bool {
    s.selection_index < channel_list(s).len() && channel_list(s)[s.selection_index as int].channel_type != 4
}

/// Enter does not fail: the selection lies in a non-empty list of conversations or
/// guilds, the command line can be left, the emoji fits, and the names in a message
/// can be scanned.
pub open spec fn submit_ok(s: AppView) -> bool {
    if in_line(s) {
        fixup_ok(line_restored(s))
    } else {
        match s.state {
            AppState::SelectingDM => dm_list(s).len() > 0 ==> s.selection_index < dm_list(s).len(),
            AppState::SelectingGuild => guild_list(s).len() > 0 ==> s.selection_index < guild_list(s).len(),
            AppState::EmojiSelection(_) => emoji_submit_ok(s),
            AppState::Chatting(ch) => s.input.len() > 0 && ch.id_view().len() > 0 ==> mention_scan(s.input) is Some,
            _ => true,
        }
    }
}

pub open spec fn after_dm_submit(s: AppView) -> AppView {
    if dm_list(s).len() == 0 {
        s
    } else {
        AppView {
            cursor_position: 0,
            status_message: loading_messages_for(recipient_label(dm_list(s)[s.selection_index as int])),
            ..s
        }
    }
}

pub open spec fn after_channel_submit(s: AppView) -> AppView {
    if picks_channel(s) {
        AppView {
            input: Seq::empty(),
            cursor_position: 0,
            status_message: loading_messages_for(channel_list(s)[s.selection_index as int].name@),
            ..s
        }
    } else {
        s
    }
}

/// The state after Enter.
pub open spec fn after_submit(s: AppView) -> AppView {
    if in_line(s) {
        after_line(s)
    } else {
        match s.state {
            AppState::SelectingDM => after_dm_submit(s),
            AppState::SelectingChannel(_) => after_channel_submit(s),
            AppState::EmojiSelection(ch) => after_emoji_submit(s, ch),
            AppState::Editing(_, _, _) => AppView { input: Seq::empty(), ..s },
            AppState::Chatting(_) => AppView { input: Seq::empty(), cursor_position: 0, ..s },
            _ => s,
        }
    }
}

pub open spec fn home_outcome(s: AppView, keyword: Option<KeywordAction>, effects: Seq<Effect>) -> bool {
    if s.selection_index == 0 {
        keyword is None && sends_one(effects, AppAction::TransitionToGuilds)
    } else if s.selection_index == 1 {
        keyword is None && sends_one(effects, AppAction::TransitionToDM)
    } else if s.selection_index == 2 {
        keyword matches Some(KeywordAction::Break) && effects.len() == 0
    } else {
        keyword is None && effects.len() == 0
    }
}

pub open spec fn dm_outcome(s: AppView, keyword: Option<KeywordAction>, effects: Seq<Effect>) -> bool {
    if dm_list(s).len() == 0 {
        keyword matches Some(KeywordAction::Continue) && effects.len() == 0
    } else {
        keyword is None && effects.len() == 1 && (effects[0] matches Effect::OpenDm(d) && same_dm(
            d,
            dm_list(s)[s.selection_index as int],
        ))
    }
}

pub open spec fn guild_outcome(s: AppView, keyword: Option<KeywordAction>, effects: Seq<Effect>) -> bool {
    if guild_list(s).len() == 0 {
        keyword matches Some(KeywordAction::Continue) && effects.len() == 0
    } else {
        keyword is None && effects.len() == 1 && effects[0] == Effect::OpenGuild(
            guild_list(s)[s.selection_index as int],
        )
    }
}

pub open spec fn channel_outcome(s: AppView, guild_id: Seq<char>, keyword: Option<KeywordAction>, effects: Seq<Effect>) -> bool {
    if picks_channel(s) {
        keyword is None && effects.len() == 1 && (effects[0] matches Effect::OpenChannel { guild_id: gid, channel }
            && gid@ == guild_id && same_channel(channel, channel_list(s)[s.selection_index as int]))
    } else {
        keyword matches Some(KeywordAction::Continue) && effects.len() == 0
    }
}

pub open spec fn edit_outcome(s: AppView, ch: AnyChannel, message_id: Seq<char>, keyword: Option<KeywordAction>, effects: Seq<Effect>) -> bool {
    keyword is None && if s.input.len() > 0 {
        effects.len() == 1 && (effects[0] matches Effect::SubmitEdit { channel, message_id: mid, content }
            && same_any_channel(*channel, ch) && mid@ == message_id && content@ == s.input)
    } else {
        effects.len() == 0
    }
}

pub open spec fn chat_outcome(s: AppView, channel_id: Seq<char>, keyword: Option<KeywordAction>, effects: Seq<Effect>) -> bool {
    keyword is None && if s.input.len() > 0 && channel_id.len() > 0 {
        effects.len() == 1 && (effects[0] matches Effect::SendMessage { channel_id: cid, content }
            && cid@ == channel_id && content@ == outgoing_text(s.input, s.guild_members))
    } else {
        effects.len() == 0
    }
}

/// What Enter asks for: on the home screen, the guild or conversation list, or to stop;
/// in a list, to open what is selected (or to skip drawing when the list is empty or a
/// category is selected); while editing, to replace the message's text; in a chat, to
/// send the text with its mentions.
pub open spec fn submit_outcome(s: AppView, keyword: Option<KeywordAction>, effects: Seq<Effect>) -> bool {
    if in_line(s) {
        line_outcome(s, keyword, effects)
    } else {
        match s.state {
            AppState::Home => home_outcome(s, keyword, effects),
            AppState::SelectingDM => dm_outcome(s, keyword, effects),
            AppState::SelectingGuild => guild_outcome(s, keyword, effects),
            AppState::SelectingChannel(g) => channel_outcome(s, g.id@, keyword, effects),
            AppState::Editing(ch, m, _) => edit_outcome(s, *ch, m.id@, keyword, effects),
            AppState::Chatting(ch) => chat_outcome(s, ch.id_view(), keyword, effects),
            _ => keyword is None && effects.len() == 0,
        }
    }
}

/// `Loading messages for {name}...`.
fn loading_messages_text(name: &str) -> (r: String)
    ensures
        r@ == loading_messages_for(name@),
{
    let mut r = crate::api::lit("Loading messages for ");
    crate::text::push_all(&mut r, name);
    crate::text::push_all(&mut r, "...");
    r
}

/// Whom a direct conversation is loaded for.
fn recipient_label_exec(d: &DM) -> (r: String)
    ensures
        r@ == recipient_label(*d),
{
    if d.recipients.len() == 0 {
        crate::api::lit("Empty")
    } else {
        d.recipients[0].username.clone()
    }
}

impl App {
    /// Takes the line out and brings the saved input back, as vim does on leaving it.
    fn restore_line(&mut self) -> (r: String)
        requires
            fixup_ok(line_restored(old(self)@)),
        ensures
            final(self)@ == settled(line_restored(old(self)@)),
            r@ == old(self)@.input,
    {
        let mut input = String::new();
        std::mem::swap(&mut input, &mut self.input);
        let mut saved: Option<String> = None;
        std::mem::swap(&mut saved, &mut self.saved_input);
        self.input = match saved {
            Some(t) => t,
            None => String::new(),
        };
        assert(self@ =~= line_restored(old(self)@));
        self.vim_fixup();
        input
    }

    /// Enter on the command or search line.
    fn submit_line(&mut self) -> (r: Step)
        requires
            in_line(old(self)@),
            fixup_ok(line_restored(old(self)@)),
        ensures
            final(self)@ == after_line(old(self)@),
            line_outcome(old(self)@, r.keyword, r.effects@),
    {
        let input = self.restore_line();
        if self.mode == InputMode::Command {
            let (kw, effects) = handle_command(input.as_str());
            if let Some(k) = kw {
                return Step { keyword: Some(k), effects };
            }
            self.mode = InputMode::Normal;
            return Step { keyword: None, effects };
        }
        self.search_input = input;
        self.mode = InputMode::Normal;
        Step { keyword: None, effects: Vec::new() }
    }

    /// Enter on the list of direct conversations.
    fn submit_dm(&mut self) -> (r: Step)
        requires
            old(self)@.state is SelectingDM,
            dm_list(old(self)@).len() > 0 ==> old(self)@.selection_index < dm_list(old(self)@).len(),
        ensures
            final(self)@ == after_dm_submit(old(self)@),
            dm_outcome(old(self)@, r.keyword, r.effects@),
    {
        let low = to_lowercase(self.search_input.as_str());
        let f = chars_of(low.as_str());
        let mut effects: Vec<Effect> = Vec::new();
        match pick_dm(&self.dms, &f, self.selection_index) {
            None => Step { keyword: Some(KeywordAction::Continue), effects },
            Some(d) => {
                self.cursor_position = 0;
                let label = recipient_label_exec(&d);
                self.status_message = loading_messages_text(label.as_str());
                effects.push(Effect::OpenDm(d));
                assert(self@ =~= after_dm_submit(old(self)@));
                Step { keyword: None, effects }
            },
        }
    }
}

impl App {
    /// Enter on the guild list.
    fn submit_guild(&self) -> (r: Step)
        requires
            guild_list(self@).len() > 0 ==> self@.selection_index < guild_list(self@).len(),
        ensures
            guild_outcome(self@, r.keyword, r.effects@),
    {
        let low = to_lowercase(self.search_input.as_str());
        let f = chars_of(low.as_str());
        let mut effects: Vec<Effect> = Vec::new();
        match pick_guild(&self.guilds, &f, self.selection_index) {
            None => Step { keyword: Some(KeywordAction::Continue), effects },
            Some(g) => {
                effects.push(Effect::OpenGuild(g));
                Step { keyword: None, effects }
            },
        }
    }

    /// Enter on the home screen.
    fn submit_home(&self) -> (r: Step)
        ensures
            home_outcome(self@, r.keyword, r.effects@),
    {
        let mut effects: Vec<Effect> = Vec::new();
        if self.selection_index == 0 {
            effects.push(Effect::Send(AppAction::TransitionToGuilds));
        } else if self.selection_index == 1 {
            effects.push(Effect::Send(AppAction::TransitionToDM));
        } else if self.selection_index == 2 {
            return Step { keyword: Some(KeywordAction::Break), effects };
        }
        Step { keyword: None, effects }
    }

    /// Enter on the channel list of the guild with id `guild_id`.
    fn submit_channel(&mut self, guild_id: String) -> (r: Step)
        ensures
            final(self)@ == after_channel_submit(old(self)@),
            channel_outcome(old(self)@, guild_id@, r.keyword, r.effects@),
    {
        let low = to_lowercase(self.search_input.as_str());
        let f = chars_of(low.as_str());
        let entries = submit_entries_exec(&self.channels, &self.context, &f);
        let sel = self.selection_index;
        let mut effects: Vec<Effect> = Vec::new();
        if entries.len() == 0 || entries.len() <= sel || entries[sel].channel_type == 4 {
            return Step { keyword: Some(KeywordAction::Continue), effects };
        }
        let channel = entries[sel].copy();
        self.input = String::new();
        self.cursor_position = 0;
        self.status_message = loading_messages_text(channel.name.as_str());
        effects.push(Effect::OpenChannel { guild_id, channel });
        assert(self@ =~= after_channel_submit(old(self)@));
        Step { keyword: None, effects }
    }

    /// Enter while editing a message: the input goes to replace the message's text.
    fn submit_edit(&mut self, channel: AnyChannel, message_id: String) -> (r: Step)
        ensures
            final(self)@ == (AppView { input: Seq::empty(), ..old(self)@ }),
            edit_outcome(old(self)@, channel, message_id@, r.keyword, r.effects@),
    {
        let mut content = String::new();
        std::mem::swap(&mut content, &mut self.input);
        let mut effects: Vec<Effect> = Vec::new();
        if !content.as_str().is_empty() {
            let ch = Box::new(channel.copy());
            effects.push(Effect::SubmitEdit { channel: ch, message_id, content });
        }
        assert(self@ =~= (AppView { input: Seq::empty(), ..old(self)@ }));
        Step { keyword: None, effects }
    }

    /// Enter in a chat with id `channel_id`: the input is sent, with `@name` of guild members
    /// made into mentions.
    fn submit_chat(&mut self, channel_id: String) -> (r: Step)
        requires
            old(self)@.input.len() > 0 && channel_id@.len() > 0 ==> mention_scan(old(self)@.input) is Some,
        ensures
            final(self)@ == (AppView { input: Seq::empty(), cursor_position: 0, ..old(self)@ }),
            chat_outcome(old(self)@, channel_id@, r.keyword, r.effects@),
    {
        let mut content = String::new();
        std::mem::swap(&mut content, &mut self.input);
        self.cursor_position = 0;
        let mut effects: Vec<Effect> = Vec::new();
        if !content.as_str().is_empty() && !channel_id.as_str().is_empty() {
            if let Some(text) = outgoing_text_exec(content.as_str(), &self.guild_members) {
                effects.push(Effect::SendMessage { channel_id, content: text });
            }
        }
        assert(self@ =~= (AppView { input: Seq::empty(), cursor_position: 0, ..old(self)@ }));
        Step { keyword: None, effects }
    }

    /// Enter: submits the command or search line, picks from the list on screen, puts the
    /// chosen emoji in the text, or sends (or edits) a message.
    pub fn input_submit(&mut self) -> (r: Step)
        requires
            submit_ok(old(self)@),
        ensures
            final(self)@ == after_submit(old(self)@),
            submit_outcome(old(self)@, r.keyword, r.effects@),
    {
        if self.vim_mode && (self.mode == InputMode::Command || self.mode == InputMode::Search) {
            return self.submit_line();
        }
        let info: (u8, String, Option<AnyChannel>) = match &self.state {
            AppState::Home => (0, String::new(), None),
            AppState::SelectingDM => (1, String::new(), None),
            AppState::SelectingGuild => (2, String::new(), None),
            AppState::SelectingChannel(g) => (3, g.id.clone(), None),
            AppState::Chatting(ch) => (4, ch.get_id(), None),
            AppState::Editing(ch, m, _) => (5, m.id.clone(), Some(ch.copy())),
            AppState::EmojiSelection(_) => (6, String::new(), None),
            _ => (7, String::new(), None),
        };
        let (kind, id, ch) = info;
        if kind == 0 {
            self.submit_home()
        } else if kind == 1 {
            self.submit_dm()
        } else if kind == 2 {
            self.submit_guild()
        } else if kind == 3 {
            self.submit_channel(id)
        } else if kind == 4 {
            self.submit_chat(id)
        } else if kind == 5 {
            match ch {
                Some(c) => self.submit_edit(c, id),
                None => Step { keyword: None, effects: Vec::new() },
            }
        } else if kind == 6 {
            let st = self.take_state();
            match st {
                AppState::EmojiSelection(c) => {
                    self.submit_emoji(c);
                },
                other => {
                    self.state = other;
                },
            }
            Step { keyword: None, effects: Vec::new() }
        } else {
            Step { keyword: None, effects: Vec::new() }
        }
    }
}

} // verus!
