use vstd::prelude::*;

use crate::api::{lit, Message};
use crate::app::App;
use crate::state::InputMode;
use crate::text::{
    chars_of, find_first, find_from, join_seq, join_strings, lemma_find_first_matches, push_all, string_of_range,
    string_views,
};

verus! {

// ---------------------------------------------------------------------------
// How a message is shown
// ---------------------------------------------------------------------------

/// The date of a timestamp `dateTtime`: the text before the first `T`.
pub open spec fn date_part(ts: Seq<char>) -> Seq<char> {
    match find_first(ts, seq!['T']) {
        Some(i) => ts.take(i),
        None => ts,
    }
}

/// The text up to the first `c` of `s`, or all of it.
pub open spec fn before_char(s: Seq<char>, c: char) -> Seq<char> {
    match find_first(s, seq![c]) {
        Some(i) => s.take(i),
        None => s,
    }
}

/// The time of a timestamp `dateTtime.fraction`: the second `T`-separated piece, up to its
/// first `.`; empty without a `T`.
pub open spec fn time_part(ts: Seq<char>) -> Seq<char> {
    match find_first(ts, seq!['T']) {
        Some(i) => before_char(before_char(ts.skip(i + 1), 'T'), '.'),
        None => Seq::empty(),
    }
}

/// The name shown for the author: the username when usernames are shown, else the global
/// name where there is one.
pub open spec fn author_name(m: Message, display_username: bool) -> Seq<char> {
    if display_username {
        m.author.username@
    } else {
        match m.author.global_name {
            Some(n) => n@,
            None => m.author.username@,
        }
    }
}

/// The text of a message as laid out in the chat: `[date time] author: content`, with
/// `(*non-text*)` for a message without text.
pub open spec fn message_line(m: Message, display_username: bool) -> Seq<char> {
    "["@ + date_part(m.timestamp@) + " "@ + time_part(m.timestamp@) + "] "@ + author_name(m, display_username)
        + ": "@ + match m.content {
        Some(c) => c@,
        None => "(*non-text*)"@,
    }
}

/// The text of `v[from..]` up to the first `c` after `from`, as indices.
fn until_char(v: &Vec<char>, from: usize, c: char) -> (r: usize)
    requires
        from <= v.len(),
    ensures
        from <= r <= v.len(),
        v@.subrange(from as int, r as int) == before_char(v@.skip(from as int), c),
{
    let mut pat: Vec<char> = Vec::new();
    pat.push(c);
    assert(pat@ =~= seq![c]);
    match find_from(v, &pat, from) {
        Some(i) => {
            proof {
                lemma_find_first_matches(v@.skip(from as int), seq![c]);
            }
            assert(v@.subrange(from as int, i as int) =~= v@.skip(from as int).take(i - from));
            i
        },
        None => {
            assert(v@.subrange(from as int, v.len() as int) =~= v@.skip(from as int));
            v.len()
        },
    }
}

/// The date and time of a timestamp, as shown.
pub fn timestamp_parts(ts: &str) -> (r: (String, String))
    ensures
        r.0@ == date_part(ts@),
        r.1@ == time_part(ts@),
{
    let v = chars_of(ts);
    assert(v@.skip(0) =~= v@);
    let t_at = until_char(&v, 0, 'T');
    assert(v@.subrange(0, t_at as int) =~= v@.take(t_at as int));
    let date = string_of_range(&v, 0, t_at);
    if t_at == v.len() {
        proof {
            lemma_find_first_matches(v@, seq!['T']);
            if find_first(v@, seq!['T']) is Some {
                assert(v@.take(t_at as int) =~= v@);
            }
        }
        assert(date@ =~= date_part(ts@)) by {
            lemma_find_first_matches(v@, seq!['T']);
            lemma_no_match_past(v@, 'T');
        }
        return (date, String::new());
    }
    proof {
        lemma_find_first_matches(v@, seq!['T']);
        lemma_no_match_past(v@, 'T');
    }
    let start = t_at + 1;
    let second_end = until_char(&v, start, 'T');
    let ghost second = v@.subrange(start as int, second_end as int);
    let mut sv: Vec<char> = Vec::new();
    let mut k = start;
    while k < second_end
        invariant
            start <= k <= second_end <= v.len(),
            sv@ == v@.subrange(start as int, k as int),
        decreases second_end - k,
    {
        sv.push(v[k]);
        assert(v@.subrange(start as int, k as int + 1) =~= v@.subrange(start as int, k as int).push(v@[k as int]));
        k += 1;
    }
    assert(sv@.skip(0) =~= sv@);
    let dot = until_char(&sv, 0, '.');
    assert(sv@.subrange(0, dot as int) =~= before_char(sv@, '.'));
    let time = string_of_range(&sv, 0, dot);
    (date, time)
}

/// If the first `c` of `s` is not before its end, there is none.
proof fn lemma_no_match_past(s: Seq<char>, c: char)
    ensures
        find_first(s, seq![c]) matches Some(i) ==> i < s.len(),
{
    lemma_find_first_matches(s, seq![c]);
}

/// The text of a message as laid out in the chat.
pub fn message_line_exec(m: &Message, display_username: bool) -> (r: String)
    ensures
        r@ == message_line(*m, display_username),
{
    let (date, time) = timestamp_parts(m.timestamp.as_str());
    let mut r = lit("[");
    push_all(&mut r, date.as_str());
    push_all(&mut r, " ");
    push_all(&mut r, time.as_str());
    push_all(&mut r, "] ");
    let name = if display_username {
        m.author.username.clone()
    } else {
        match &m.author.global_name {
            Some(n) => n.clone(),
            None => m.author.username.clone(),
        }
    };
    push_all(&mut r, name.as_str());
    push_all(&mut r, ": ");
    match &m.content {
        Some(c) => push_all(&mut r, c.as_str()),
        None => push_all(&mut r, "(*non-text*)"),
    }
    r
}

// ---------------------------------------------------------------------------
// The input box's title
// ---------------------------------------------------------------------------

/// Who is typing, in words: one name `is typing...`, two or three `are typing...`, more
/// than three `Several people are typing...`.
pub open spec fn typing_text(names: Seq<Seq<char>>) -> Seq<char> {
    if names.len() > 3 {
        "Several people are typing..."@
    } else if names.len() == 1 {
        join_seq(names, ", "@) + " is typing..."@
    } else {
        join_seq(names, ", "@) + " are typing..."@
    }
}

/// The status line with who is typing after it, when anyone is.
pub open spec fn status_with_typing(status: Seq<char>, names: Seq<Seq<char>>) -> Seq<char> {
    if names.len() == 0 {
        status
    } else {
        status + " | "@ + typing_text(names)
    }
}

/// The title of the input box: the command line, the search, or the status line.
pub open spec fn input_title_spec(mode: InputMode, status: Seq<char>) -> Seq<char> {
    match mode {
        InputMode::Command => "Command Line"@,
        InputMode::Search => "Searching"@,
        _ => "Input: "@ + status,
    }
}

/// The name shown for a user: the remembered name, or `Someone`.
pub open spec fn typist_label(names: Map<Seq<char>, Seq<char>>, id: Seq<char>) -> Seq<char> {
    if names.contains_key(id) {
        names[id]
    } else {
        "Someone"@
    }
}

pub fn typing_text_exec(names: &Vec<String>) -> (r: String)
    ensures
        r@ == typing_text(string_views(names@)),
{
    if names.len() > 3 {
        lit("Several people are typing...")
    } else {
        let mut r = join_strings(names, ", ");
        if names.len() == 1 {
            push_all(&mut r, " is typing...");
        } else {
            push_all(&mut r, " are typing...");
        }
        r
    }
}

pub fn status_with_typing_exec(status: &str, names: &Vec<String>) -> (r: String)
    ensures
        r@ == status_with_typing(status@, string_views(names@)),
{
    if names.len() == 0 {
        lit(status)
    } else {
        let mut r = lit(status);
        push_all(&mut r, " | ");
        let t = typing_text_exec(names);
        push_all(&mut r, t.as_str());
        r
    }
}

pub fn input_title(mode: InputMode, status: &str) -> (r: String)
    ensures
        r@ == input_title_spec(mode, status@),
{
    match mode {
        InputMode::Command => lit("Command Line"),
        InputMode::Search => lit("Searching"),
        _ => {
            let mut r = lit("Input: ");
            push_all(&mut r, status);
            r
        },
    }
}

impl App {
    /// The names of those typing in `channel`, as shown.
    pub fn typist_names(&self, channel: &str) -> (r: Vec<String>)
        ensures
            exists|ids: Seq<Seq<char>>|
                #![trigger ids.len()]
                r@.len() == ids.len() && (forall|u: Seq<char>| #[trigger] self@.typing_users.contains_key((channel@, u))
                    <==> ids.contains(u)) && (forall|j: int| 0 <= j < ids.len() ==> #[trigger] r@[j]@ == typist_label(
                    self@.user_names,
                    ids[j],
                )),
    {
        let ids = self.typing_users.users_in(channel);
        let mut out: Vec<String> = Vec::new();
        let mut i: usize = 0;
        while i < ids.len()
            invariant
                i <= ids.len(),
                out.len() == i,
                forall|u: Seq<char>| #[trigger] self@.typing_users.contains_key((channel@, u)) <==> exists|j: int| 0 <= j < ids.len() && ids@[j]@ == u,
                forall|j: int| 0 <= j < i ==> #[trigger] out@[j]@ == typist_label(self@.user_names, ids@[j]@),
            decreases ids.len() - i,
        {
            let name = match self.user_names.get(ids[i].as_str()) {
                Some(n) => n.clone(),
                None => lit("Someone"),
            };
            out.push(name);
            i += 1;
        }
        let ghost w = string_views(ids@);
        assert forall|u: Seq<char>| #[trigger] self@.typing_users.contains_key((channel@, u)) <==> w.contains(u) by {
            if self@.typing_users.contains_key((channel@, u)) {
                let j = choose|j: int| 0 <= j < ids.len() && ids@[j]@ == u;
                assert(w[j] == u);
            }
            if w.contains(u) {
                let j = choose|j: int| 0 <= j < w.len() && w[j] == u;
                assert(ids@[j]@ == u);
            }
        }
        assert(forall|j: int| 0 <= j < w.len() ==> #[trigger] out@[j]@ == typist_label(self@.user_names, w[j]));
        assert(out@.len() == w.len());
        out
    }
}

// ---------------------------------------------------------------------------
// How tall a message is on screen
// ---------------------------------------------------------------------------

/// The width of a text on screen, in columns, as `unicode-width` measures it.
pub uninterp spec fn display_width(s: Seq<char>) -> usize;

/// unicode-width's `UnicodeWidthStr::width`: the contract names its result
/// `display_width` of the text.
#[verifier::external_body]
fn width_of(s: &str) -> (r: usize)
    ensures
        r == display_width(s@),
{
    unicode_width::UnicodeWidthStr::width(s)
}

/// The pieces of `s` between the characters `c` (`str::split(c)`).
pub open spec fn pieces(s: Seq<char>, c: char) -> Seq<Seq<char>>
    decreases s.len(),
{
    if s.len() == 0 {
        seq![Seq::empty()]
    } else {
        let r = pieces(s.drop_last(), c);
        if s.last() == c {
            r.push(Seq::empty())
        } else {
            r.update(r.len() - 1, r.last().push(s.last()))
        }
    }
}

pub proof fn lemma_pieces_nonempty(s: Seq<char>, c: char)
    ensures
        pieces(s, c).len() >= 1,
    decreases s.len(),
{
    if s.len() > 0 {
        lemma_pieces_nonempty(s.drop_last(), c);
    }
}

/// The pieces of `s` between the characters `c`.
pub fn pieces_exec(s: &str, c: char) -> (r: Vec<String>)
    ensures
        string_views(r@) == pieces(s@, c),
{
    let v = chars_of(s);
    let mut r: Vec<String> = Vec::new();
    r.push(String::new());
    assert(string_views(r@) =~= pieces(v@.take(0), c));
    let mut i: usize = 0;
    while i < v.len()
        invariant
            i <= v.len(),
            v@ == s@,
            r.len() >= 1,
            string_views(r@) == pieces(v@.take(i as int), c),
        decreases v.len() - i,
    {
        let ghost t = v@.take(i as int + 1);
        assert(t.drop_last() =~= v@.take(i as int));
        assert(t.last() == v@[i as int]);
        let ghost before = string_views(r@);
        if v[i] == c {
            r.push(String::new());
            assert(string_views(r@) =~= before.push(Seq::empty()));
        } else {
            let last = r.len() - 1;
            let mut piece = String::new();
            std::mem::swap(&mut piece, &mut r[last]);
            crate::text::push_char(&mut piece, v[i]);
            r.set(last, piece);
            assert(string_views(r@) =~= before.update(before.len() - 1, before.last().push(v@[i as int])));
        }
        i += 1;
    }
    assert(v@.take(v.len() as int) =~= v@);
    r
}

/// One word more on a line `safe` columns wide: it goes after a space on the current row
/// when it fits; else it starts a new row, and a word wider than a row takes as many rows
/// as it needs. The state is the rows filled and the width used on the current row.
pub open spec fn wrap_step(st: (nat, nat), first: bool, ww: nat, safe: nat) -> (nat, nat) {
    let h = st.0;
    let cur = st.1;
    let sp: nat = if first {
        0
    } else {
        1
    };
    if cur + sp + ww <= safe {
        (h, cur + sp + ww)
    } else {
        let h1: nat = if cur > 0 {
            h + 1
        } else {
            h
        };
        if ww > safe {
            let chunks: nat = ((ww + safe - 1) / (safe as int)) as nat;
            let c: nat = ww % safe;
            ((h1 + chunks - 1) as nat, if c == 0 {
                safe
            } else {
                c
            })
        } else {
            (h1, ww)
        }
    }
}

/// The state after laying out the words of a line.
pub open spec fn wrap_words(words: Seq<Seq<char>>, safe: nat) -> (nat, nat)
    decreases words.len(),
{
    if words.len() == 0 {
        (0, 0)
    } else {
        wrap_step(wrap_words(words.drop_last(), safe), words.len() == 1, display_width(words.last()) as nat, safe)
    }
}

/// The rows that a line takes: one for an empty line or no room; else the rows filled and
/// the row in use.
pub open spec fn line_height(line: Seq<char>, safe: nat) -> nat {
    if display_width(line) == 0 || safe == 0 {
        1
    } else {
        let st = wrap_words(pieces(line, ' '), safe);
        st.0 + if st.1 > 0 {
            1nat
        } else {
            0nat
        }
    }
}

/// The rows that the lines take.
pub open spec fn lines_height(lines: Seq<Seq<char>>, safe: nat) -> nat
    decreases lines.len(),
{
    if lines.len() == 0 {
        0
    } else {
        lines_height(lines.drop_last(), safe) + line_height(lines.last(), safe)
    }
}

/// The room for text in a box `max_width` columns wide.
pub open spec fn text_room(max_width: u16) -> nat {
    if max_width >= 4 {
        (max_width - 4) as nat
    } else {
        0
    }
}

/// How many rows a message's text is estimated to take in a box `max_width` wide.
pub open spec fn estimated_height(text: Seq<char>, max_width: u16) -> nat {
    lines_height(pieces(text, '\n'), text_room(max_width))
}

/// Every word of every line of the text is narrow enough to be measured without overflow.
pub open spec fn words_fit(text: Seq<char>) -> bool {
    forall|i: int, j: int|
        #![trigger pieces(pieces(text, '\n')[i], ' ')[j]]
        0 <= i < pieces(text, '\n').len() && 0 <= j < pieces(pieces(text, '\n')[i], ' ').len()
            ==> display_width(pieces(pieces(text, '\n')[i], ' ')[j]) + 65536 <= usize::MAX
}

proof fn lemma_wrap_step_bounds(st: (nat, nat), first: bool, ww: nat, safe: nat)
    requires
        safe > 0,
        st.1 <= safe,
    ensures
        wrap_step(st, first, ww, safe).0 >= st.0,
        wrap_step(st, first, ww, safe).1 <= safe,
{
    if !(st.1 + (if first { 0nat } else { 1nat }) + ww <= safe) && ww > safe {
        let chunks: nat = ((ww + safe - 1) / (safe as int)) as nat;
        assert(chunks >= 1) by (nonlinear_arith)
            requires
                ww > safe,
                safe > 0,
                chunks == ((ww + safe - 1) / (safe as int)) as nat,
        ;
        assert(ww % safe < safe) by (nonlinear_arith)
            requires
                safe > 0,
        ;
    }
}

proof fn lemma_wrap_words_bounds(words: Seq<Seq<char>>, safe: nat, k: int)
    requires
        safe > 0,
        0 <= k <= words.len(),
    ensures
        wrap_words(words, safe).1 <= safe,
        wrap_words(words.take(k), safe).0 <= wrap_words(words, safe).0,
    decreases words.len(),
{
    if words.len() > 0 {
        if k == words.len() {
            assert(words.take(k) =~= words);
            lemma_wrap_words_bounds(words.drop_last(), safe, k - 1);
        } else {
            lemma_wrap_words_bounds(words.drop_last(), safe, k);
            assert(words.drop_last().take(k) =~= words.take(k));
        }
        lemma_wrap_step_bounds(wrap_words(words.drop_last(), safe), words.len() == 1, display_width(words.last()) as nat, safe);
    }
}

/// The rows that a line takes, where that fits in `usize`.
fn line_height_checked(line: &str, safe: usize) -> (r: Option<usize>)
    requires
        safe <= 65535,
        forall|j: int| 0 <= j < pieces(line@, ' ').len() ==> display_width(#[trigger] pieces(line@, ' ')[j]) + 65536 <= usize::MAX,
    ensures
        match r {
            Some(n) => n == line_height(line@, safe as nat),
            None => line_height(line@, safe as nat) > usize::MAX,
        },
{
    let width = width_of(line);
    if width == 0 || safe == 0 {
        return Some(1);
    }
    let words = pieces_exec(line, ' ');
    let ghost ws = pieces(line@, ' ');
    proof {
        lemma_wrap_words_bounds(ws, safe as nat, ws.len() as int);
    }
    let mut h: usize = 0;
    let mut cur: usize = 0;
    let mut i: usize = 0;
    while i < words.len()
        invariant
            0 < safe <= 65535,
            i <= words.len(),
            string_views(words@) == ws,
            ws == pieces(line@, ' '),
            forall|j: int| 0 <= j < ws.len() ==> display_width(#[trigger] ws[j]) + 65536 <= usize::MAX,
            (h as nat, cur as nat) == wrap_words(ws.take(i as int), safe as nat),
            cur <= safe,
            display_width(line@) != 0,
        decreases words.len() - i,
    {
        let ghost t = ws.take(i as int + 1);
        assert(t.drop_last() =~= ws.take(i as int));
        assert(t.last() == words@[i as int]@);
        let ww = width_of(words[i].as_str());
        assert(ww == display_width(ws[i as int]));
        proof {
            lemma_wrap_words_bounds(ws, safe as nat, i as int + 1);
            lemma_wrap_step_bounds(wrap_words(ws.take(i as int), safe as nat), i == 0, ww as nat, safe as nat);
        }
        let sp: usize = if i == 0 {
            0
        } else {
            1
        };
        assert(wrap_words(t, safe as nat) == wrap_step(wrap_words(ws.take(i as int), safe as nat), i == 0, ww as nat, safe as nat));
        if ww > safe {
            assert(((ww + safe - 1) / (safe as int)) >= 1) by (nonlinear_arith)
                requires
                    ww > safe,
                    safe > 0,
            ;
        }
        if cur + sp + ww <= safe {
            cur = cur + sp + ww;
        } else {
            let h1 = if cur > 0 {
                match h.checked_add(1) {
                    Some(k) => k,
                    None => {
                        proof {
                            assert(wrap_words(t, safe as nat).0 >= h + 1) by (nonlinear_arith)
                                requires
                                    ww > safe ==> ((ww + safe - 1) / (safe as int)) >= 1,
                                    wrap_words(t, safe as nat) == wrap_step((h as nat, cur as nat), i == 0, ww as nat, safe as nat),
                                    cur + sp + ww > safe,
                                    cur > 0,
                                    sp == (if i == 0 { 0usize } else { 1usize }),
                            ;
                            lemma_line_height_at_least(ws, safe as nat, i as int + 1);
                        }
                        return None;
                    },
                }
            } else {
                h
            };
            if ww > safe {
                let chunks = (ww + safe - 1) / safe;
                assert(chunks as nat == ((ww + safe - 1) / (safe as int)) as nat);
                match h1.checked_add(chunks - 1) {
                    Some(k) => h = k,
                    None => {
                        proof {
                            lemma_line_height_at_least(ws, safe as nat, i as int + 1);
                        }
                        return None;
                    },
                }
                cur = ww % safe;
                if cur == 0 {
                    cur = safe;
                }
            } else {
                h = h1;
                cur = ww;
            }
        }
        i += 1;
    }
    assert(ws.take(i as int) =~= ws);
    if cur > 0 {
        match h.checked_add(1) {
            Some(k) => Some(k),
            None => None,
        }
    } else {
        Some(h)
    }
}

/// The rows of a line are at least the rows filled after any of its first words.
proof fn lemma_line_height_at_least(ws: Seq<Seq<char>>, safe: nat, k: int)
    requires
        safe > 0,
        0 <= k <= ws.len(),
    ensures
        wrap_words(ws.take(k), safe).0 <= wrap_words(ws, safe).0,
{
    lemma_wrap_words_bounds(ws, safe, k);
}

/// Every word of the line is narrow enough to be measured without overflow.
fn line_words_fit(line: &str) -> (r: bool)
    ensures
        r == forall|j: int| 0 <= j < pieces(line@, ' ').len() ==> display_width(#[trigger] pieces(line@, ' ')[j]) + 65536 <= usize::MAX,
{
    let words = pieces_exec(line, ' ');
    let ghost ws = pieces(line@, ' ');
    let mut i: usize = 0;
    while i < words.len()
        invariant
            i <= words.len(),
            string_views(words@) == ws,
            ws == pieces(line@, ' '),
            forall|j: int| 0 <= j < i ==> display_width(#[trigger] ws[j]) + 65536 <= usize::MAX,
        decreases words.len() - i,
    {
        let ww = width_of(words[i].as_str());
        assert(words@[i as int]@ == ws[i as int]);
        if ww > usize::MAX - 65536 {
            assert(display_width(pieces(line@, ' ')[i as int]) + 65536 > usize::MAX);
            return false;
        }
        i += 1;
    }
    true
}

/// How many rows a message's text is estimated to take in a box `max_width` wide, where
/// its words can be measured and the count fits in `usize`.
pub fn estimated_height_exec(text: &str, max_width: u16) -> (r: Option<usize>)
    ensures
        match r {
            Some(n) => words_fit(text@) && n == estimated_height(text@, max_width),
            None => !(words_fit(text@) && estimated_height(text@, max_width) <= usize::MAX),
        },
{
    let safe: usize = if max_width >= 4 {
        (max_width - 4) as usize
    } else {
        0
    };
    let lines = pieces_exec(text, '\n');
    let ghost ls = pieces(text@, '\n');
    let mut i: usize = 0;
    while i < lines.len()
        invariant
            i <= lines.len(),
            string_views(lines@) == ls,
            ls == pieces(text@, '\n'),
            forall|a: int, b: int| 0 <= a < i && 0 <= b < pieces(ls[a], ' ').len() ==> display_width(
                #[trigger] pieces(ls[a], ' ')[b],
            ) + 65536 <= usize::MAX,
        decreases lines.len() - i,
    {
        assert(lines@[i as int]@ == ls[i as int]);
        if !line_words_fit(lines[i].as_str()) {
            return None;
        }
        i += 1;
    }
    assert(words_fit(text@));
    let mut total: usize = 0;
    let mut i: usize = 0;
    while i < lines.len()
        invariant
            i <= lines.len(),
            safe as nat == text_room(max_width),
            string_views(lines@) == ls,
            ls == pieces(text@, '\n'),
            words_fit(text@),
            total == lines_height(ls.take(i as int), safe as nat),
        decreases lines.len() - i,
    {
        let ghost t = ls.take(i as int + 1);
        assert(t.drop_last() =~= ls.take(i as int));
        assert(t.last() == lines@[i as int]@);
        proof {
            lemma_lines_height_prefix(ls, safe as nat, i as int + 1);
            assert forall|j: int| 0 <= j < pieces(ls[i as int], ' ').len() implies display_width(
                #[trigger] pieces(ls[i as int], ' ')[j],
            ) + 65536 <= usize::MAX by {
                assert(display_width(pieces(pieces(text@, '\n')[i as int], ' ')[j]) + 65536 <= usize::MAX);
            }
        }
        let h = match line_height_checked(lines[i].as_str(), safe) {
            Some(h) => h,
            None => return None,
        };
        match total.checked_add(h) {
            Some(k) => total = k,
            None => return None,
        }
        i += 1;
    }
    assert(ls.take(i as int) =~= ls);
    Some(total)
}

proof fn lemma_lines_height_prefix(ls: Seq<Seq<char>>, safe: nat, k: int)
    requires
        0 <= k <= ls.len(),
    ensures
        lines_height(ls.take(k), safe) <= lines_height(ls, safe),
    decreases ls.len() - k,
{
    if k < ls.len() {
        lemma_lines_height_prefix(ls, safe, k + 1);
        assert(ls.take(k + 1).drop_last() =~= ls.take(k));
    } else {
        assert(ls.take(k) =~= ls);
    }
}

// ---------------------------------------------------------------------------
// Scrolling the chat
// ---------------------------------------------------------------------------

/// The rows that the first messages take.
pub open spec fn total_rows(hs: Seq<usize>) -> nat
    decreases hs.len(),
{
    if hs.len() == 0 {
        0
    } else {
        total_rows(hs.drop_last()) + hs.last() as nat
    }
}

/// Where the selected message sits among the shown ones (oldest first): the selection
/// counts the shown messages from the newest, starting at 1; 0 selects none.
pub open spec fn selected_position(n: nat, selection_index: usize) -> Option<int> {
    if selection_index > 0 && selection_index - 1 < n {
        Some(n - selection_index)
    } else {
        None
    }
}

/// Where the chat scrolls to: far enough to show the selected message, or to the bottom
/// when nothing is selected; given the rows each shown message takes, oldest first.
pub open spec fn chat_scroll_spec(hs: Seq<usize>, selection_index: usize, offset: nat, max_height: nat) -> nat {
    if selection_index == 0 {
        if total_rows(hs) >= max_height {
            (total_rows(hs) - max_height) as nat
        } else {
            0
        }
    } else {
        match selected_position(hs.len(), selection_index) {
            Some(k) => {
                let start = total_rows(hs.take(k));
                let end = start + hs[k];
                if start < offset {
                    start
                } else if end > offset + max_height {
                    if end >= max_height {
                        (end - max_height) as nat
                    } else {
                        0
                    }
                } else {
                    offset
                }
            },
            None => offset,
        }
    }
}

proof fn lemma_total_rows_prefix(hs: Seq<usize>, k: int)
    requires
        0 <= k <= hs.len(),
    ensures
        total_rows(hs.take(k)) <= total_rows(hs),
    decreases hs.len() - k,
{
    if k < hs.len() {
        lemma_total_rows_prefix(hs, k + 1);
        assert(hs.take(k + 1).drop_last() =~= hs.take(k));
    } else {
        assert(hs.take(k) =~= hs);
    }
}

/// Where the chat scrolls to.
pub fn chat_scroll(hs: &Vec<usize>, selection_index: usize, offset: usize, max_height: usize) -> (r: usize)
    requires
        total_rows(hs@) <= usize::MAX,
        offset + max_height <= usize::MAX,
    ensures
        r == chat_scroll_spec(hs@, selection_index, offset as nat, max_height as nat),
{
    let n = hs.len();
    let mut total: usize = 0;
    let mut offset = offset;
    let ghost off0 = offset;
    let mut i: usize = 0;
    while i < n
        invariant
            n == hs.len(),
            i <= n,
            total == total_rows(hs@.take(i as int)),
            total_rows(hs@) <= usize::MAX,
            off0 + max_height <= usize::MAX,
            offset == if selection_index > 0 && selection_index - 1 < n && (n - selection_index) < i {
                chat_scroll_spec(hs@, selection_index, off0 as nat, max_height as nat)
            } else {
                off0 as nat
            },
        decreases n - i,
    {
        proof {
            lemma_total_rows_prefix(hs@, i as int + 1);
            assert(hs@.take(i as int + 1).drop_last() =~= hs@.take(i as int));
        }
        let start = total;
        total = total + hs[i];
        if selection_index > 0 && selection_index - 1 < n && n - selection_index == i {
            if start < offset {
                offset = start;
            } else if total > offset + max_height {
                offset = total.saturating_sub(max_height);
            }
        }
        i += 1;
    }
    assert(hs@.take(n as int) =~= hs@);
    if selection_index == 0 {
        offset = total.saturating_sub(max_height);
    }
    offset
}

} // verus!
