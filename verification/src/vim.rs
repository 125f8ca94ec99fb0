use vstd::prelude::*;

use crate::api::{same_message, Message};
use crate::app::{App, AppView};
use crate::state::{same_any_channel, AnyChannel, AppAction, AppState, Effect, InputMode, Step};
use crate::submit::kept;
use crate::text::{chars_of, contains_exec, contains_seq, is_space, lowercase, str_eq, string_of, to_lowercase};
use crate::textbuf::{
    byte_len, char_len_exec, index_at, index_at_exec, insert_at, insert_char, is_boundary,
    lemma_byte_len_concat, lemma_byte_len_insert, lemma_offset_full, lemma_offset_mono,
    lemma_offset_step, offset_of, remove_at, remove_range,
};

verus! {

// ---------------------------------------------------------------------------
// Lines and words of a text, by character index
// ---------------------------------------------------------------------------

/// The index where the line holding index `k` starts.
pub open spec fn line_start(t: Seq<char>, k: int) -> int
    decreases k,
{
    if k <= 0 || t[k - 1] == '\n' {
        k
    } else {
        line_start(t, k - 1)
    }
}

/// The index where the line holding index `k` ends: that of its line break, or the end of
/// the text.
pub open spec fn line_end(t: Seq<char>, k: int) -> int
    decreases t.len() - k,
{
    if k >= t.len() || t[k] == '\n' {
        k
    } else {
        line_end(t, k + 1)
    }
}

/// From `k`, past the characters that are not whitespace.
pub open spec fn past_word(t: Seq<char>, k: int) -> int
    decreases t.len() - k,
{
    if k < t.len() && !is_space(t[k]) {
        past_word(t, k + 1)
    } else {
        k
    }
}

/// From `k`, past the whitespace.
pub open spec fn past_space(t: Seq<char>, k: int) -> int
    decreases t.len() - k,
{
    if k < t.len() && is_space(t[k]) {
        past_space(t, k + 1)
    } else {
        k
    }
}

/// From `k`, back over the whitespace before it.
pub open spec fn before_space(t: Seq<char>, k: int) -> int
    decreases k,
{
    if 0 < k <= t.len() && is_space(t[k - 1]) {
        before_space(t, k - 1)
    } else {
        k
    }
}

/// From `k`, back over the characters before it that are not whitespace.
pub open spec fn before_word(t: Seq<char>, k: int) -> int
    decreases k,
{
    if 0 < k <= t.len() && !is_space(t[k - 1]) {
        before_word(t, k - 1)
    } else {
        k
    }
}

/// The start of the next word after index `k` (`w`): past the rest of this word, then
/// past the whitespace.
pub open spec fn word_forward(t: Seq<char>, k: int) -> int {
    past_space(t, past_word(t, k))
}

/// The start of the word before index `k` (`b`): back over the whitespace, then over the
/// word.
pub open spec fn word_back(t: Seq<char>, k: int) -> int {
    before_word(t, before_space(t, k))
}

/// Where `dw` stops: the start of the next word, but not past the end of the line.
pub open spec fn word_end_in_line(t: Seq<char>, k: int) -> int {
    if word_forward(t, k) > line_end(t, k) {
        line_end(t, k)
    } else {
        word_forward(t, k)
    }
}

/// `t` without the characters at indices `from..to`.
pub open spec fn cut(t: Seq<char>, from: int, to: int) -> Seq<char> {
    t.take(from) + t.skip(to)
}

/// Index `k` kept on a character of `t`: past the end of a text that is not empty, it goes
/// to the last character.
pub open spec fn kept_on(t: Seq<char>, k: int) -> int {
    if k >= t.len() && t.len() > 0 {
        t.len() - 1
    } else {
        k
    }
}

/// Down one line (`j`): to the same column of the next line, or its end where it is
/// shorter; on the last line the index stays.
pub open spec fn line_down(t: Seq<char>, k: int) -> int {
    let e = line_end(t, k);
    if e < t.len() {
        let n = e + 1;
        let col = k - line_start(t, k);
        let room = line_end(t, n) - n;
        n + if col < room {
            col
        } else {
            room
        }
    } else {
        k
    }
}

/// Up one line (`k`): to the same column of the line before, or its end where it is
/// shorter; on the first line the index stays.
pub open spec fn line_up(t: Seq<char>, k: int) -> int {
    let a = line_start(t, k);
    if a > 0 {
        let p = line_start(t, a - 1);
        let col = k - a;
        let room = (a - 1) - p;
        p + if col < room {
            col
        } else {
            room
        }
    } else {
        k
    }
}

/// Deleting the line that holds index `k` (`dd`): the line goes with its line break; the
/// last line goes with the break before it. Gives the text and where the cursor goes: the
/// start of the line that takes its place.
pub open spec fn delete_line(t: Seq<char>, k: int) -> (Seq<char>, int) {
    let a = line_start(t, k);
    let e = line_end(t, k);
    if e < t.len() {
        (cut(t, a, e + 1), a)
    } else if a > 0 {
        (cut(t, a - 1, e), line_start(t, a - 1))
    } else {
        (Seq::empty(), 0)
    }
}

// ---------------------------------------------------------------------------
// Facts about them
// ---------------------------------------------------------------------------

pub proof fn lemma_line_start(t: Seq<char>, k: int)
    requires
        0 <= k <= t.len(),
    ensures
        0 <= line_start(t, k) <= k,
        line_start(t, k) == 0 || t[line_start(t, k) - 1] == '\n',
        forall|i: int| line_start(t, k) <= i < k ==> t[i] != '\n',
    decreases k,
{
    if !(k <= 0 || t[k - 1] == '\n') {
        lemma_line_start(t, k - 1);
    }
}

pub proof fn lemma_line_end(t: Seq<char>, k: int)
    requires
        0 <= k <= t.len(),
    ensures
        k <= line_end(t, k) <= t.len(),
        line_end(t, k) == t.len() || t[line_end(t, k)] == '\n',
        forall|i: int| k <= i < line_end(t, k) ==> t[i] != '\n',
    decreases t.len() - k,
{
    if !(k >= t.len() || t[k] == '\n') {
        lemma_line_end(t, k + 1);
    }
}

pub proof fn lemma_past_word(t: Seq<char>, k: int)
    requires
        0 <= k <= t.len(),
    ensures
        k <= past_word(t, k) <= t.len(),
    decreases t.len() - k,
{
    if k < t.len() && !is_space(t[k]) {
        lemma_past_word(t, k + 1);
    }
}

pub proof fn lemma_past_space(t: Seq<char>, k: int)
    requires
        0 <= k <= t.len(),
    ensures
        k <= past_space(t, k) <= t.len(),
    decreases t.len() - k,
{
    if k < t.len() && is_space(t[k]) {
        lemma_past_space(t, k + 1);
    }
}

pub proof fn lemma_before_space(t: Seq<char>, k: int)
    requires
        0 <= k <= t.len(),
    ensures
        0 <= before_space(t, k) <= k,
    decreases k,
{
    if 0 < k <= t.len() && is_space(t[k - 1]) {
        lemma_before_space(t, k - 1);
    }
}

pub proof fn lemma_before_word(t: Seq<char>, k: int)
    requires
        0 <= k <= t.len(),
    ensures
        0 <= before_word(t, k) <= k,
    decreases k,
{
    if 0 < k <= t.len() && !is_space(t[k - 1]) {
        lemma_before_word(t, k - 1);
    }
}

/// Cutting characters out does not make the text longer in bytes.
pub proof fn lemma_cut_bytes(t: Seq<char>, from: int, to: int)
    requires
        0 <= from <= to <= t.len(),
    ensures
        byte_len(cut(t, from, to)) <= byte_len(t),
        cut(t, from, to).len() == t.len() - (to - from),
{
    lemma_byte_len_concat(t.take(from), t.skip(to));
    lemma_byte_len_concat(t.take(from), t.subrange(from, to));
    lemma_byte_len_concat(t.take(from) + t.subrange(from, to), t.skip(to));
    assert(t.take(from) + t.subrange(from, to) + t.skip(to) =~= t);
}

// ---------------------------------------------------------------------------
// Executable forms
// ---------------------------------------------------------------------------

pub fn line_start_exec(v: &Vec<char>, k: usize) -> (r: usize)
    requires
        k <= v.len(),
    ensures
        r == line_start(v@, k as int),
{
    let mut j = k;
    while j > 0 && v[j - 1] != '\n'
        invariant
            j <= k <= v.len(),
            line_start(v@, k as int) == line_start(v@, j as int),
        decreases j,
    {
        j -= 1;
    }
    j
}

pub fn line_end_exec(v: &Vec<char>, k: usize) -> (r: usize)
    requires
        k <= v.len(),
    ensures
        r == line_end(v@, k as int),
{
    let mut j = k;
    while j < v.len() && v[j] != '\n'
        invariant
            k <= j <= v.len(),
            line_end(v@, k as int) == line_end(v@, j as int),
        decreases v.len() - j,
    {
        j += 1;
    }
    j
}

pub fn word_forward_exec(v: &Vec<char>, k: usize) -> (r: usize)
    requires
        k <= v.len(),
    ensures
        r == word_forward(v@, k as int),
        k <= r <= v.len(),
{
    let mut j = k;
    while j < v.len() && !crate::text::is_space_exec(v[j])
        invariant
            k <= j <= v.len(),
            past_word(v@, k as int) == past_word(v@, j as int),
        decreases v.len() - j,
    {
        j += 1;
    }
    let ghost w = j;
    while j < v.len() && crate::text::is_space_exec(v[j])
        invariant
            w <= j <= v.len(),
            past_space(v@, w as int) == past_space(v@, j as int),
            w == past_word(v@, k as int),
            k <= w,
        decreases v.len() - j,
    {
        j += 1;
    }
    j
}

pub fn word_back_exec(v: &Vec<char>, k: usize) -> (r: usize)
    requires
        k <= v.len(),
    ensures
        r == word_back(v@, k as int),
        r <= k,
{
    let mut j = k;
    while j > 0 && crate::text::is_space_exec(v[j - 1])
        invariant
            j <= k <= v.len(),
            before_space(v@, k as int) == before_space(v@, j as int),
        decreases j,
    {
        j -= 1;
    }
    let ghost w = j;
    while j > 0 && !crate::text::is_space_exec(v[j - 1])
        invariant
            j <= w <= k <= v.len(),
            before_word(v@, w as int) == before_word(v@, j as int),
            w == before_space(v@, k as int),
        decreases j,
    {
        j -= 1;
    }
    j
}

pub fn line_down_exec(v: &Vec<char>, k: usize) -> (r: usize)
    requires
        k <= v.len(),
    ensures
        r == line_down(v@, k as int),
        r <= v.len(),
{
    proof {
        lemma_line_end(v@, k as int);
        lemma_line_start(v@, k as int);
    }
    let e = line_end_exec(v, k);
    if e < v.len() {
        let n = e + 1;
        proof {
            lemma_line_end(v@, n as int);
        }
        let col = k - line_start_exec(v, k);
        let room = line_end_exec(v, n) - n;
        n + if col < room {
            col
        } else {
            room
        }
    } else {
        k
    }
}

pub fn line_up_exec(v: &Vec<char>, k: usize) -> (r: usize)
    requires
        k <= v.len(),
    ensures
        r == line_up(v@, k as int),
        r <= v.len(),
{
    proof {
        lemma_line_start(v@, k as int);
    }
    let a = line_start_exec(v, k);
    if a > 0 {
        proof {
            lemma_line_start(v@, a - 1);
        }
        let p = line_start_exec(v, a - 1);
        let col = k - a;
        let room = (a - 1) - p;
        p + if col < room {
            col
        } else {
            room
        }
    } else {
        k
    }
}

/// The byte offset of character index `k`.
pub fn offset_exec(v: &Vec<char>, k: usize) -> (n: usize)
    requires
        k <= v.len(),
        byte_len(v@) <= usize::MAX,
    ensures
        n == offset_of(v@, k as int),
{
    let mut n: usize = 0;
    let mut i: usize = 0;
    while i < k
        invariant
            i <= k <= v.len(),
            byte_len(v@) <= usize::MAX,
            n == offset_of(v@, i as int),
        decreases k - i,
    {
        proof {
            lemma_offset_step(v@, i as int);
            lemma_offset_mono(v@, i as int + 1, v.len() as int);
            lemma_offset_full(v@);
        }
        n = n + char_len_exec(v[i]);
        i += 1;
    }
    n
}

/// Cuts out the characters at indices `from..to`.
pub fn cut_exec(v: &mut Vec<char>, from: usize, to: usize)
    requires
        from <= to <= old(v).len(),
    ensures
        final(v)@ == cut(old(v)@, from as int, to as int),
        byte_len(final(v)@) <= byte_len(old(v)@),
        final(v).len() == old(v).len() - (to - from),
{
    proof {
        lemma_cut_bytes(v@, from as int, to as int);
    }
    remove_range(v, from, to);
}

/// Puts a line break at index `k`.
pub fn break_at(v: &mut Vec<char>, k: usize)
    requires
        k <= old(v).len(),
    ensures
        final(v)@ == insert_at(old(v)@, k as int, '\n'),
        byte_len(final(v)@) == byte_len(old(v)@) + 1,
        final(v).len() == old(v).len() + 1,
{
    proof {
        lemma_byte_len_insert(v@, k as int, '\n');
    }
    insert_char(v, k, '\n');
}


// ---------------------------------------------------------------------------
// Messages shown in a chat
// ---------------------------------------------------------------------------

/// A message's text, empty where it has none.
pub open spec fn content_text(m: Message) -> Seq<char> {
    match m.content {
        Some(c) => c@,
        None => Seq::empty(),
    }
}

/// A message is shown when its lower-cased text holds the (lower-cased) filter.
pub open spec fn message_pred(filter: Seq<char>) -> spec_fn(Message) -> bool {
    |m: Message| contains_seq(lowercase(content_text(m)), filter)
}

/// The messages of the chat that the search filter lets through, in order.
pub open spec fn shown_messages(s: AppView) -> Seq<Message> {
    kept(s.messages, message_pred(lowercase(s.search_input)))
}

/// In a chat, the message selected: selection `n > 0` picks the `n`-th shown message.
pub open spec fn selected_message(s: AppView) -> Option<Message> {
    if s.state is Chatting && 0 < s.selection_index <= shown_messages(s).len() {
        Some(shown_messages(s)[s.selection_index - 1])
    } else {
        None
    }
}

/// The selected message, where the current user wrote it.
pub open spec fn own_selected(s: AppView) -> Option<Message> {
    match selected_message(s) {
        Some(m) => if (s.current_user matches Some(u) && u.id@ == m.author.id@) {
            Some(m)
        } else {
            None
        },
        None => None,
    }
}

/// Whether the message is shown under the (lower-cased) filter.
pub fn message_shown(m: &Message, filter: &Vec<char>) -> (r: bool)
    ensures
        r == message_pred(filter@)(*m),
{
    proof {
        reveal_strlit("");
        assert(""@ =~= Seq::<char>::empty());
    }
    let text = match &m.content {
        Some(c) => to_lowercase(c.as_str()),
        None => to_lowercase(""),
    };
    let lv = chars_of(text.as_str());
    contains_exec(&lv, filter)
}

/// The `n`-th shown message (from 0), if there are that many; `count` is how many are
/// shown.
pub fn nth_shown_message(ms: &Vec<Message>, filter: &Vec<char>, n: usize) -> (r: (Option<Message>, usize))
    ensures
        r.1 == kept(ms@, message_pred(filter@)).len(),
        match r.0 {
            Some(m) => n < r.1 && same_message(m, kept(ms@, message_pred(filter@))[n as int]),
            None => n >= r.1,
        },
{
    let ghost p = message_pred(filter@);
    let mut count: usize = 0;
    let mut found: Option<Message> = None;
    let mut i: usize = 0;
    while i < ms.len()
        invariant
            i <= ms.len(),
            p == message_pred(filter@),
            count == kept(ms@.take(i as int), p).len(),
            count <= i,
            match found {
                Some(m) => n < count && same_message(m, kept(ms@.take(i as int), p)[n as int]),
                None => n >= count,
            },
        decreases ms.len() - i,
    {
        proof {
            assert(ms@.take(i as int + 1).drop_last() =~= ms@.take(i as int));
            assert(ms@.take(i as int + 1).last() == ms@[i as int]);
        }
        if message_shown(&ms[i], filter) {
            if count == n {
                found = Some(ms[i].copy());
            }
            count += 1;
        }
        i += 1;
    }
    proof {
        crate::submit::lemma_kept_prefix(ms@, p, ms.len() as int);
    }
    assert(ms@.take(ms.len() as int) =~= ms@);
    (found, count)
}

// ---------------------------------------------------------------------------
// The keys of vim's normal mode
// ---------------------------------------------------------------------------

/// A key of vim's normal mode does not fail: the cursor is at a character boundary and the
/// text can take one more byte.
pub open spec fn vim_key_ok(s: AppView) -> bool {
    is_boundary(s.input, s.cursor_position as int) && byte_len(s.input) < usize::MAX
}

/// The operator waiting for its motion (`d` of `dw`, `db`, `dd`).
pub open spec fn pending_op(s: AppView) -> Option<char> {
    match s.vim_state {
        Some((op, _)) => op,
        None => None,
    }
}

/// The state with the waiting operator set to `op` (where vim's state is kept).
pub open spec fn with_op(s: AppView, op: Option<char>) -> AppView {
    AppView {
        vim_state: match s.vim_state {
            Some((_, keys)) => Some((op, keys)),
            None => None,
        },
        ..s
    }
}

/// The cursor at character index `k` of the input.
pub open spec fn at(s: AppView, k: int) -> AppView {
    AppView { cursor_position: offset_of(s.input, k) as usize, ..s }
}

/// The input `t` with the cursor at its character index `k`.
pub open spec fn with_text(s: AppView, t: Seq<char>, k: int) -> AppView {
    AppView { input: t, cursor_position: offset_of(t, k) as usize, ..s }
}

/// Insert mode, with the cursor at character index `k`.
pub open spec fn insert_mode_at(s: AppView, k: int) -> AppView {
    AppView { mode: InputMode::Insert, ..at(s, k) }
}

/// `c` is a key that starts inserting: `i`, `I`, `a` or `A`.
pub open spec fn starts_insert(c: char) -> bool {
    c == 'i' || c == 'I' || c == 'a' || c == 'A'
}

/// The state after the key `c`, with no operator waiting. With `t` the input and `k` the
/// cursor's character index:
/// `d` waits for its motion; on a selected message of one's own, `i`, `I`, `a` and `A`
/// start editing it (the state stays, see `vim_key_effects`); otherwise `i` inserts at the
/// cursor, `I` at the start of the line, `a` after the character under the cursor, `A` at
/// the end of the line, `o` on a new line below, `O` on a new line above; `h` and `l` move
/// one character within the line; in a chat `k` and `j` select the message above and
/// below (back to none), elsewhere they move a line up and down; in a chat with a message
/// selected `G` clears the selection, elsewhere it moves to the end of the input; `x`
/// deletes the character under the cursor; `w` and `b` move to the next and the previous
/// word; `:` and `/` put the input aside and open the command and the search line. Other
/// keys change nothing.
pub open spec fn after_plain_key(s: AppView, c: char) -> AppView {
    let t = s.input;
    let k = index_at(t, s.cursor_position as int);
    if c == 'd' {
        with_op(s, Some('d'))
    } else if starts_insert(c) && own_selected(s) is Some {
        s
    } else if c == 'i' {
        insert_mode_at(s, k)
    } else if c == 'I' {
        insert_mode_at(s, line_start(t, k))
    } else if c == 'a' {
        insert_mode_at(s, if k < line_end(t, k) { k + 1 } else { k })
    } else if c == 'A' {
        insert_mode_at(s, line_end(t, k))
    } else if c == 'o' {
        let e = line_end(t, k);
        AppView { mode: InputMode::Insert, ..with_text(s, insert_at(t, e, '\n'), e + 1) }
    } else if c == 'O' {
        let a = line_start(t, k);
        AppView { mode: InputMode::Insert, ..with_text(s, insert_at(t, a, '\n'), a) }
    } else if c == 'h' {
        if k > 0 && t[k - 1] != '\n' {
            at(s, k - 1)
        } else {
            s
        }
    } else if c == 'l' {
        if k + 1 < line_end(t, k) {
            at(s, k + 1)
        } else {
            s
        }
    } else if c == 'j' {
        if s.state is Chatting {
            if s.selection_index > 0 {
                AppView { selection_index: (s.selection_index - 1) as usize, ..s }
            } else {
                s
            }
        } else {
            at(s, line_down(t, k))
        }
    } else if c == 'k' {
        if s.state is Chatting {
            if s.selection_index < shown_messages(s).len() {
                AppView { selection_index: (s.selection_index + 1) as usize, ..s }
            } else {
                s
            }
        } else {
            at(s, line_up(t, k))
        }
    } else if c == 'G' {
        if s.state is Chatting && s.selection_index > 0 {
            AppView { selection_index: 0, ..s }
        } else {
            at(s, t.len() as int)
        }
    } else if c == 'x' {
        if k < t.len() {
            with_text(s, remove_at(t, k), kept_on(remove_at(t, k), k))
        } else {
            s
        }
    } else if c == 'w' {
        at(s, word_forward(t, k))
    } else if c == 'b' {
        at(s, word_back(t, k))
    } else if c == ':' || c == '/' {
        AppView {
            saved_input: Some(t),
            input: Seq::empty(),
            cursor_position: 0,
            mode: if c == ':' {
                InputMode::Command
            } else {
                InputMode::Search
            },
            ..s
        }
    } else {
        s
    }
}

/// The state after the key `c` with the operator `op` waiting: the operator is done with.
/// `dw` deletes up to the next word (not past the end of the line), `db` back to the start of the word before, and `dd`
/// the line (or, on a selected message of one's own, leaves the text: see
/// `vim_key_effects`). Another key only drops the operator.
pub open spec fn after_op_key(s: AppView, op: char, c: char) -> AppView {
    let s0 = with_op(s, None);
    let t = s.input;
    let k = index_at(t, s.cursor_position as int);
    if op == 'd' && c == 'w' {
        let u = cut(t, k, word_end_in_line(t, k));
        with_text(s0, u, kept_on(u, k))
    } else if op == 'd' && c == 'b' {
        let b = word_back(t, k);
        with_text(s0, cut(t, b, k), b)
    } else if op == 'd' && c == 'd' {
        if own_selected(s) is Some {
            s0
        } else {
            with_text(s0, delete_line(t, k).0, delete_line(t, k).1)
        }
    } else {
        s0
    }
}

/// The state after the key `c` in vim's normal mode.
pub open spec fn after_vim_key(s: AppView, c: char) -> AppView {
    match pending_op(s) {
        Some(op) => after_op_key(s, op, c),
        None => after_plain_key(s, c),
    }
}

/// The effects are to delete the message `m` of the chat `ch`.
pub open spec fn deletes_message(effects: Seq<Effect>, ch: AnyChannel, m: Message) -> bool {
    effects.len() == 1 && (effects[0] matches Effect::Send(AppAction::ApiDeleteMessage(a, b)) && a@
        == ch.id_view() && b@ == m.id@)
}

/// The effects are to start editing the message `m` of the chat `ch` with the key `c`.
pub open spec fn edits_message(effects: Seq<Effect>, ch: AnyChannel, m: Message, c: char) -> bool {
    effects.len() == 1 && (effects[0] matches Effect::Send(AppAction::TransitionToEditing(ch2, m2, text, c2))
        && same_any_channel(*ch2, ch) && same_message(m2, m) && text@ == content_text(m) && c2 == c)
}

/// What the key `c` in vim's normal mode asks for: on a selected message of one's own, `dd`
/// deletes it and `i`, `I`, `a`, `A` start editing it; nothing otherwise.
pub open spec fn vim_key_effects(s: AppView, c: char, effects: Seq<Effect>) -> bool {
    match (s.state, own_selected(s)) {
        (AppState::Chatting(ch), Some(m)) => if pending_op(s) == Some('d') && c == 'd' {
            deletes_message(effects, *ch, m)
        } else if pending_op(s) is None && starts_insert(c) {
            edits_message(effects, *ch, m, c)
        } else {
            effects.len() == 0
        },
        _ => effects.len() == 0,
    }
}

impl App {
    /// Sets the operator waiting for its motion.
    fn set_op(&mut self, op: Option<char>)
        ensures
            final(self)@ == with_op(old(self)@, op),
    {
        if let Some(vs) = &mut self.vim_state {
            vs.operator = op;
        }
        assert(self@ =~= with_op(old(self)@, op));
    }

    /// Puts the cursor at character index `k` of the input, whose characters are `v`.
    fn move_to(&mut self, v: &Vec<char>, k: usize)
        requires
            v@ == old(self)@.input,
            k <= v.len(),
            byte_len(v@) <= usize::MAX,
        ensures
            final(self)@ == at(old(self)@, k as int),
    {
        self.cursor_position = offset_exec(v, k);
        assert(self@ =~= at(old(self)@, k as int));
    }

    /// Makes `v` the input, with the cursor at its character index `k`.
    fn put_text(&mut self, v: &Vec<char>, k: usize)
        requires
            k <= v.len(),
            byte_len(v@) <= usize::MAX,
        ensures
            final(self)@ == with_text(old(self)@, v@, k as int),
    {
        self.input = string_of(v);
        self.cursor_position = offset_exec(v, k);
        assert(self@ =~= with_text(old(self)@, v@, k as int));
    }

    /// The selected message, where the current user wrote it, and the number of shown
    /// messages.
    fn own_selected_exec(&self) -> (r: (Option<Message>, usize))
        ensures
            r.1 == shown_messages(self@).len(),
            match r.0 {
                Some(m) => own_selected(self@) matches Some(m0) && same_message(m, m0),
                None => own_selected(self@) is None,
            },
    {
        let low = to_lowercase(self.search_input.as_str());
        let filter = chars_of(low.as_str());
        let n = if self.selection_index > 0 {
            self.selection_index - 1
        } else {
            usize::MAX
        };
        let (found, count) = nth_shown_message(&self.messages, &filter, n);
        let in_chat = match &self.state {
            AppState::Chatting(_) => true,
            _ => false,
        };
        if !in_chat || self.selection_index == 0 {
            return (None, count);
        }
        match found {
            None => (None, count),
            Some(m) => {
                let own = match &self.current_user {
                    Some(u) => str_eq(u.id.as_str(), m.author.id.as_str()),
                    None => false,
                };
                if own {
                    (Some(m), count)
                } else {
                    (None, count)
                }
            },
        }
    }

    /// The chat's channel, where the screen is a chat.
    fn chat_channel(&self) -> (r: Option<AnyChannel>)
        ensures
            match r {
                Some(c) => self@.state matches AppState::Chatting(ch) && same_any_channel(c, *ch),
                None => !(self@.state is Chatting),
            },
    {
        match &self.state {
            AppState::Chatting(ch) => Some(ch.copy()),
            _ => None,
        }
    }
}


impl App {
    /// The key `c` in vim's normal mode.
    pub fn vim_normal_key(&mut self, c: char) -> (r: Step)
        requires
            vim_key_ok(old(self)@),
        ensures
            final(self)@ == after_vim_key(old(self)@, c),
            r.keyword is None,
            vim_key_effects(old(self)@, c, r.effects@),
    {
        let op = match &self.vim_state {
            Some(vs) => vs.operator,
            None => None,
        };
        match op {
            Some(o) => self.op_key(o, c),
            None => self.plain_key(c),
        }
    }

    /// The key `c` with the operator `op` waiting.
    fn op_key(&mut self, op: char, c: char) -> (r: Step)
        requires
            vim_key_ok(old(self)@),
            pending_op(old(self)@) == Some(op),
        ensures
            final(self)@ == after_op_key(old(self)@, op, c),
            r.keyword is None,
            vim_key_effects(old(self)@, c, r.effects@),
    {
        let mut effects: Vec<Effect> = Vec::new();
        let v = chars_of(self.input.as_str());
        let k = match index_at_exec(&v, self.cursor_position) {
            Some(k) => k,
            None => return Step { keyword: None, effects },
        };
        let (own, _) = self.own_selected_exec();
        self.set_op(None);
        let ghost s0 = self@;
        if op == 'd' && c == 'w' {
            proof {
                lemma_line_end(v@, k as int);
            }
            let w = word_forward_exec(&v, k);
            let le = line_end_exec(&v, k);
            let e = if w > le {
                le
            } else {
                w
            };
            let mut u = v.clone();
            assert(u@ == v@);
            cut_exec(&mut u, k, e);
            let j = if k >= u.len() && u.len() > 0 {
                u.len() - 1
            } else {
                k
            };
            self.put_text(&u, j);
        } else if op == 'd' && c == 'b' {
            let b = word_back_exec(&v, k);
            let mut u = v.clone();
            assert(u@ == v@);
            cut_exec(&mut u, b, k);
            self.put_text(&u, b);
        } else if op == 'd' && c == 'd' {
            match own {
                Some(m) => {
                    let ch = self.chat_channel();
                    if let Some(ch) = ch {
                        effects.push(Effect::Send(AppAction::ApiDeleteMessage(ch.get_id(), m.id.clone())));
                    }
                },
                None => {
                    proof {
                        lemma_line_start(v@, k as int);
                        lemma_line_end(v@, k as int);
                    }
                    let a = line_start_exec(&v, k);
                    let e = line_end_exec(&v, k);
                    let mut u = v.clone();
                    assert(u@ == v@);
                    if e < v.len() {
                        cut_exec(&mut u, a, e + 1);
                        self.put_text(&u, a);
                    } else if a > 0 {
                        proof {
                            lemma_line_start(v@, a - 1);
                        }
                        let p = line_start_exec(&v, a - 1);
                        cut_exec(&mut u, a - 1, e);
                        self.put_text(&u, p);
                    } else {
                        let empty: Vec<char> = Vec::new();
                        self.put_text(&empty, 0);
                    }
                },
            }
        }
        Step { keyword: None, effects }
    }

    /// The key `c` with no operator waiting.
    fn plain_key(&mut self, c: char) -> (r: Step)
        requires
            vim_key_ok(old(self)@),
            pending_op(old(self)@) is None,
        ensures
            final(self)@ == after_plain_key(old(self)@, c),
            r.keyword is None,
            vim_key_effects(old(self)@, c, r.effects@),
    {
        if c == 'd' {
            self.set_op(Some('d'));
            Step { keyword: None, effects: Vec::new() }
        } else if c == 'i' || c == 'I' || c == 'a' || c == 'A' {
            self.insert_key(c)
        } else if c == 'o' || c == 'O' || c == 'x' {
            self.edit_key(c);
            Step { keyword: None, effects: Vec::new() }
        } else if c == 'h' || c == 'l' || c == 'w' || c == 'b' {
            self.motion_key(c);
            Step { keyword: None, effects: Vec::new() }
        } else if c == 'j' || c == 'k' || c == 'G' {
            self.vertical_key(c);
            Step { keyword: None, effects: Vec::new() }
        } else {
            if c == ':' || c == '/' {
                let mut taken = String::new();
                std::mem::swap(&mut taken, &mut self.input);
                self.saved_input = Some(taken);
                self.cursor_position = 0;
                self.mode = if c == ':' {
                    InputMode::Command
                } else {
                    InputMode::Search
                };
            }
            assert(self@ =~= after_plain_key(old(self)@, c));
            Step { keyword: None, effects: Vec::new() }
        }
    }

    /// `i`, `I`, `a`, `A`: editing a selected message of one's own, or inserting.
    fn insert_key(&mut self, c: char) -> (r: Step)
        requires
            vim_key_ok(old(self)@),
            pending_op(old(self)@) is None,
            starts_insert(c),
        ensures
            final(self)@ == after_plain_key(old(self)@, c),
            r.keyword is None,
            vim_key_effects(old(self)@, c, r.effects@),
    {
        let mut effects: Vec<Effect> = Vec::new();
        let (own, _) = self.own_selected_exec();
        if let Some(m) = own {
            if let Some(ch) = self.chat_channel() {
                let text = match &m.content {
                    Some(t) => t.clone(),
                    None => String::new(),
                };
                effects.push(Effect::Send(AppAction::TransitionToEditing(Box::new(ch), m, text, c)));
            }
            return Step { keyword: None, effects };
        }
        let v = chars_of(self.input.as_str());
        let k = match index_at_exec(&v, self.cursor_position) {
            Some(k) => k,
            None => return Step { keyword: None, effects },
        };
        proof {
            lemma_line_start(v@, k as int);
            lemma_line_end(v@, k as int);
        }
        let j = if c == 'i' {
            k
        } else if c == 'I' {
            line_start_exec(&v, k)
        } else if c == 'a' {
            if k < line_end_exec(&v, k) {
                k + 1
            } else {
                k
            }
        } else {
            line_end_exec(&v, k)
        };
        self.move_to(&v, j);
        self.mode = InputMode::Insert;
        assert(self@ =~= after_plain_key(old(self)@, c));
        Step { keyword: None, effects }
    }

    /// `o`, `O`, `x`: a new line below or above, or deleting the character under the cursor.
    fn edit_key(&mut self, c: char)
        requires
            vim_key_ok(old(self)@),
            pending_op(old(self)@) is None,
            c == 'o' || c == 'O' || c == 'x',
        ensures
            final(self)@ == after_plain_key(old(self)@, c),
    {
        let v = chars_of(self.input.as_str());
        let k = match index_at_exec(&v, self.cursor_position) {
            Some(k) => k,
            None => return,
        };
        proof {
            lemma_line_start(v@, k as int);
            lemma_line_end(v@, k as int);
        }
        let mut u = v.clone();
        assert(u@ == v@);
        if c == 'o' {
            let e = line_end_exec(&v, k);
            break_at(&mut u, e);
            self.put_text(&u, e + 1);
            self.mode = InputMode::Insert;
        } else if c == 'O' {
            let a = line_start_exec(&v, k);
            break_at(&mut u, a);
            self.put_text(&u, a);
            self.mode = InputMode::Insert;
        } else if k < v.len() {
            cut_exec(&mut u, k, k + 1);
            assert(u@ =~= remove_at(v@, k as int));
            let j = if k >= u.len() && u.len() > 0 {
                u.len() - 1
            } else {
                k
            };
            self.put_text(&u, j);
        }
        assert(self@ =~= after_plain_key(old(self)@, c));
    }

    /// `h`, `l`, `w`, `b`: moving within the text.
    fn motion_key(&mut self, c: char)
        requires
            vim_key_ok(old(self)@),
            pending_op(old(self)@) is None,
            c == 'h' || c == 'l' || c == 'w' || c == 'b',
        ensures
            final(self)@ == after_plain_key(old(self)@, c),
    {
        let v = chars_of(self.input.as_str());
        let k = match index_at_exec(&v, self.cursor_position) {
            Some(k) => k,
            None => return,
        };
        proof {
            lemma_line_end(v@, k as int);
        }
        if c == 'h' {
            if k > 0 && v[k - 1] != '\n' {
                self.move_to(&v, k - 1);
            }
        } else if c == 'l' {
            if k < v.len() && k + 1 < line_end_exec(&v, k) {
                self.move_to(&v, k + 1);
            }
        } else if c == 'w' {
            let j = word_forward_exec(&v, k);
            self.move_to(&v, j);
        } else {
            let j = word_back_exec(&v, k);
            self.move_to(&v, j);
        }
        assert(self@ =~= after_plain_key(old(self)@, c));
    }

    /// `j`, `k`, `G`: the message selection in a chat, lines elsewhere.
    fn vertical_key(&mut self, c: char)
        requires
            vim_key_ok(old(self)@),
            pending_op(old(self)@) is None,
            c == 'j' || c == 'k' || c == 'G',
        ensures
            final(self)@ == after_plain_key(old(self)@, c),
    {
        let v = chars_of(self.input.as_str());
        let k = match index_at_exec(&v, self.cursor_position) {
            Some(k) => k,
            None => return,
        };
        let (_, count) = self.own_selected_exec();
        let in_chat = match &self.state {
            AppState::Chatting(_) => true,
            _ => false,
        };
        if c == 'j' {
            if in_chat {
                if self.selection_index > 0 {
                    self.selection_index = self.selection_index - 1;
                }
            } else {
                let j = line_down_exec(&v, k);
                self.move_to(&v, j);
            }
        } else if c == 'k' {
            if in_chat {
                if self.selection_index < count {
                    self.selection_index = self.selection_index + 1;
                }
            } else {
                let j = line_up_exec(&v, k);
                self.move_to(&v, j);
            }
        } else {
            if in_chat && self.selection_index > 0 {
                self.selection_index = 0;
            } else {
                self.move_to(&v, v.len());
            }
        }
        assert(self@ =~= after_plain_key(old(self)@, c));
    }
}

} // verus!
