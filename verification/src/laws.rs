use vstd::prelude::*;

use crate::api::Message;
use crate::app::{
    after_message_delete, after_tick, after_update_messages, dms_status, guilds_status, home_status,
    messages_kept, messages_without, to_list, typing_cutoff, AppView,
};
use crate::editing::{after_typing, cur_index, with_char};
use crate::incoming::after_message_create;
use crate::keys::{after_input_char, after_backspace, after_select_emoji, emoji_start, erase_back, erased};
use crate::navigate::{after_move, list_len, step_forward_back_returns, step_stays_in_list};
use crate::num::{decimal_text, digit_char, digits_value, parse_u64_spec};
use crate::screens::{after_to_chat, after_to_editing};
use crate::step::stepped;
use crate::state::{AnyChannel, AppAction, AppState, InputMode, LogType, Step};
use crate::submit::split_spaces;
use crate::vim::{after_vim_key, pending_op, shown_messages};
use crate::text::{all_digits, find_first, is_space, join_seq, trimmed, trimmed_end, trimmed_start};
use crate::logs::{log_line_spec, log_type_name, parse_log_ok, parse_log_spec};
use crate::textbuf::{
    byte_len, char_before, char_len, index_at, insert_at, is_boundary, lemma_index_at, lemma_insert_offset,
    lemma_offset_mono, lemma_offset_full, lemma_offset_strict, offset_of, remove_at,
};

verus! {

// ---------------------------------------------------------------------------
// Lists
// ---------------------------------------------------------------------------

/// The screens whose selection moves through a list.
pub open spec fn on_list(s: AppView) -> bool {
    s.state is Home || s.state is SelectingDM || s.state is SelectingGuild || s.state is SelectingChannel
}

/// Down and then Up (or Up and then Down) on a list come back to the same entry.
pub proof fn law_next_then_previous(s: AppView, total: nat)
    requires
        on_list(s),
        0 <= s.selection_index < list_len(s),
        list_len(s) <= usize::MAX,
    ensures
        after_move(after_move(s, true, total), false, total) == s,
        after_move(after_move(s, false, total), true, total) == s,
{
    step_forward_back_returns(s.selection_index as int, list_len(s));
    step_stays_in_list(s.selection_index as int, list_len(s), true);
    step_stays_in_list(s.selection_index as int, list_len(s), false);
    let a = after_move(s, true, total);
    let b = after_move(s, false, total);
    assert(a.selection_index == crate::navigate::step_index(s.selection_index as int, list_len(s), true));
    assert(b.selection_index == crate::navigate::step_index(s.selection_index as int, list_len(s), false));
    assert(list_len(a) == list_len(s));
    assert(list_len(b) == list_len(s));
    assert(after_move(a, false, total) =~= s);
    assert(after_move(b, true, total) =~= s);
}

/// Moving through a list keeps the selection on one of its entries.
pub proof fn law_selection_stays_in_list(s: AppView, forward: bool, total: nat)
    requires
        on_list(s),
        0 <= s.selection_index < list_len(s),
        list_len(s) <= usize::MAX,
    ensures
        after_move(s, forward, total).selection_index < list_len(s),
{
    step_stays_in_list(s.selection_index as int, list_len(s), forward);
}

/// Going to a list screen starts it afresh: the input and the search are empty, the
/// cursor is at the start and the first entry is selected.
pub proof fn law_list_screens_start_afresh(s: AppView, st: AppState)
    ensures
        ({
            let t = to_list(s, st, home_status());
            &&& t.input.len() == 0
            &&& t.search_input.len() == 0
            &&& t.cursor_position == 0
            &&& t.selection_index == 0
            &&& t.state == st
        }),
        to_list(s, AppState::SelectingGuild, guilds_status()).selection_index == 0,
        to_list(s, AppState::SelectingDM, dms_status()).selection_index == 0,
{
}

// ---------------------------------------------------------------------------
// Editing
// ---------------------------------------------------------------------------

/// In a chat outside vim, typing a character and then erasing it with Backspace gives
/// back the text and the cursor.
pub proof fn law_backspace_undoes_typing(s: AppView, c: char, now1: u64, now2: u64)
    requires
        s.state is Chatting,
        !s.vim_mode,
        c != ':',
        is_boundary(s.input, s.cursor_position as int),
        s.cursor_position + char_len(c) <= usize::MAX,
    ensures
        after_backspace(after_input_char(s, c, now1), now2).input == s.input,
        after_backspace(after_input_char(s, c, now1), now2).cursor_position == s.cursor_position,
{
    let k = cur_index(s);
    lemma_index_at_bounds(s.input, s.cursor_position as int);
    let t = after_input_char(s, c, now1);
    assert(t.input == insert_at(s.input, k, c));
    lemma_insert_offset(s.input, k, c);
    let b = offset_of(insert_at(s.input, k, c), k + 1);
    assert(b == s.cursor_position + char_len(c));
    lemma_index_at(insert_at(s.input, k, c), k + 1);
    assert(t.cursor_position == b);
    assert(char_before(t.input, b as int) == Some(c)) by {
        assert(insert_at(s.input, k, c)[k] == c);
    }
    assert(erased(t.input, b as int) =~= s.input) by {
        assert(remove_at(insert_at(s.input, k, c), k) =~= s.input);
    }
    let u = after_backspace(t, now2);
    assert(u == after_typing(erase_back(t, b as int), now2));
}

/// The character index of a boundary lies within the text, and its offset is the boundary.
proof fn lemma_index_at_bounds(s: Seq<char>, b: int)
    requires
        is_boundary(s, b),
    ensures
        0 <= index_at(s, b) <= s.len(),
        offset_of(s, index_at(s, b)) == b,
{
}

/// In a chat, asking for the emoji list at the start of a word and leaving it again
/// without a choice gives back the text as it was.
proof fn lemma_emoji_cancel_input(s: AppView, ch: Box<AnyChannel>)
    requires
        s.state is Chatting,
        emoji_start(s),
        is_boundary(s.input, s.cursor_position as int),
        s.cursor_position + 1 <= usize::MAX,
    ensures
        after_to_chat(after_select_emoji(s), ch).input == s.input,
{
    let k = cur_index(s);
    lemma_index_at_bounds(s.input, s.cursor_position as int);
    let t = after_select_emoji(s);
    let w = with_char(s, ':');
    assert(char_len(':') == 1);
    assert(t.input == insert_at(s.input, k, ':'));
    assert(t.emoji_filter_start == Some(s.cursor_position));
    assert(t.emoji_filter.len() == 0);
    assert(byte_len(t.emoji_filter) == 0);
    lemma_insert_offset(s.input, k, ':');
    let ins = insert_at(s.input, k, ':');
    assert(offset_of(ins, k) == s.cursor_position) by {
        assert(ins.take(k) =~= s.input.take(k));
    }
    lemma_index_at(ins, k);
    lemma_index_at(ins, k + 1);
    assert(ins.take(k) + ins.skip(k + 1) =~= s.input);
}

/// Going back to the chat: in a chat, after either editing a message or asking for the
/// emoji list at the start of a word, going back to the same chat is a quiet step that
/// gives back the chat with its text as it was, the cursor at the start and the first
/// entry selected. Coming back from the emoji list, the filter is gone; coming back from
/// editing, nothing stays saved and the filter is as it was in the chat.
pub proof fn law_back_to_chat(
    s: AppView,
    ch: Box<AnyChannel>,
    a: AppAction,
    now1: u64,
    t: AppView,
    r1: Step,
    now2: u64,
    u: AppView,
    r2: Step,
)
    requires
        s.state == AppState::Chatting(ch),
        a is SelectEmoji || a is TransitionToEditing,
        a is SelectEmoji ==> emoji_start(s) && is_boundary(s.input, s.cursor_position as int)
            && s.cursor_position + 1 <= usize::MAX,
        stepped(s, a, now1, t, r1),
        stepped(t, AppAction::TransitionToChat(ch), now2, u, r2),
    ensures
        r2.keyword is None,
        r2.effects@.len() == 0,
        u.state == AppState::Chatting(ch),
        u.input == s.input,
        u.cursor_position == 0,
        u.selection_index == 0,
        a is SelectEmoji ==> u.emoji_filter.len() == 0 && u.emoji_filter_start is None,
        a is TransitionToEditing ==> u.saved_input is None && u.emoji_filter == s.emoji_filter
            && u.emoji_filter_start == s.emoji_filter_start,
{
    assert(u == after_to_chat(t, ch));
    match a {
        AppAction::SelectEmoji => {
            assert(t == after_select_emoji(s));
            assert(t.state == AppState::EmojiSelection(ch));
            lemma_emoji_cancel_input(s, ch);
        },
        AppAction::TransitionToEditing(c, m, content, key) => {
            assert(t == after_to_editing(s, c, m, content, key));
            assert(t.saved_input == Some(s.input));
        },
        _ => {},
    }
}

// ---------------------------------------------------------------------------
// Messages
// ---------------------------------------------------------------------------

proof fn lemma_without_excludes(ms: Seq<Message>, id: Seq<char>)
    ensures
        forall|i: int| 0 <= i < messages_without(ms, id).len() ==> #[trigger] messages_without(ms, id)[i].id@ != id,
    decreases ms.len(),
{
    if ms.len() > 0 {
        lemma_without_excludes(ms.drop_last(), id);
        let prev = messages_without(ms.drop_last(), id);
        if ms.last().id@ != id {
            assert forall|i: int| 0 <= i < prev.len() + 1 implies #[trigger] prev.push(ms.last())[i].id@ != id by {
                if i < prev.len() {
                    assert(prev.push(ms.last())[i] == prev[i]);
                }
            }
        }
    }
}

proof fn lemma_kept_excludes(ms: Seq<Message>, deleted: Set<Seq<char>>)
    ensures
        forall|i: int| 0 <= i < messages_kept(ms, deleted).len() ==> !deleted.contains(
            #[trigger] messages_kept(ms, deleted)[i].id@,
        ),
    decreases ms.len(),
{
    if ms.len() > 0 {
        lemma_kept_excludes(ms.drop_last(), deleted);
        let prev = messages_kept(ms.drop_last(), deleted);
        if !deleted.contains(ms.last().id@) {
            assert forall|i: int| 0 <= i < prev.len() + 1 implies !deleted.contains(
                #[trigger] prev.push(ms.last())[i].id@,
            ) by {
                if i < prev.len() {
                    assert(prev.push(ms.last())[i] == prev[i]);
                }
            }
        }
    }
}

/// A message deleted elsewhere leaves the chat, and stays out of it when the chat's
/// messages are loaded again.
pub proof fn law_deleted_message_stays_hidden(s: AppView, id: Seq<char>, ch: Seq<char>, ms: Seq<Message>)
    ensures
        forall|i: int| 0 <= i < after_message_delete(s, id).messages.len() ==> #[trigger] after_message_delete(
            s,
            id,
        ).messages[i].id@ != id,
        forall|i: int| 0 <= i < after_update_messages(after_message_delete(s, id), ch, ms).messages.len()
            ==> #[trigger] after_update_messages(after_message_delete(s, id), ch, ms).messages[i].id@ != id,
{
    lemma_without_excludes(s.messages, id);
    let t = after_message_delete(s, id);
    lemma_kept_excludes(ms, t.deleted_message_ids);
    assert(t.deleted_message_ids.contains(id));
}

/// Someone who starts typing is shown as typing for ten seconds at most: after a tick,
/// every entry left started less than ten seconds before.
pub proof fn law_typing_expires(s: AppView, now: u64)
    ensures
        forall|k: (Seq<char>, Seq<char>)| #[trigger] after_tick(s, now).typing_users.contains_key(k) ==> after_tick(
            s,
            now,
        ).typing_users[k] >= typing_cutoff(now),
{
}

/// Whoever sends a message is no longer shown as typing in that channel.
pub proof fn law_sender_stops_typing(s: AppView, m: Message)
    ensures
        !after_message_create(s, m).typing_users.contains_key((m.channel_id@, m.author.id@)),
{
}

// ---------------------------------------------------------------------------
// Text
// ---------------------------------------------------------------------------

proof fn lemma_decimal_text(n: nat)
    ensures
        decimal_text(n).len() > 0,
        all_digits(decimal_text(n)),
        digits_value(decimal_text(n)) == n,
        decimal_text(n)[0] != '+',
    decreases n,
{
    if n >= 10 {
        lemma_decimal_text(n / 10);
        let d = (n % 10) as nat;
        let t = decimal_text(n);
        assert(t.drop_last() =~= decimal_text(n / 10));
        assert(t.last() == digit_char(d));
        assert(((digit_char(d) as u32) - ('0' as u32)) as nat == d);
        vstd::arithmetic::div_mod::lemma_fundamental_div_mod(n as int, 10);
        assert(digits_value(t) == digits_value(t.drop_last()) * 10 + ((t.last() as u32) - ('0' as u32)) as nat);
        assert(digits_value(t) == (n / 10) * 10 + n % 10);
    } else {
        assert(((digit_char(n) as u32) - ('0' as u32)) as nat == n);
        let t = decimal_text(n);
        assert(t.drop_last() =~= Seq::<char>::empty());
        assert(t.last() == digit_char(n));
        assert(digits_value(t.drop_last()) == 0);
        assert(digits_value(t) == digits_value(t.drop_last()) * 10 + ((t.last() as u32) - ('0' as u32)) as nat);
    }
}

/// A number written in decimal reads back as itself.
pub proof fn law_decimal_round_trip(n: u64)
    ensures
        parse_u64_spec(decimal_text(n as nat)) == Some(n),
{
    lemma_decimal_text(n as nat);
}

proof fn lemma_join_push_last(r: Seq<Seq<char>>, sep: Seq<char>, c: char)
    requires
        r.len() >= 1,
    ensures
        join_seq(r.update(r.len() - 1, r.last().push(c)), sep) == join_seq(r, sep).push(c),
{
    let u = r.update(r.len() - 1, r.last().push(c));
    if r.len() == 1 {
        assert(join_seq(u, sep) == u[0]);
    } else {
        assert(u.drop_last() =~= r.drop_last());
        assert(join_seq(u, sep) == join_seq(u.drop_last(), sep) + sep + u.last());
        assert(join_seq(r, sep) == join_seq(r.drop_last(), sep) + sep + r.last());
        assert(join_seq(u, sep) =~= join_seq(r, sep).push(c));
    }
}

/// Splitting a command line at its spaces and joining the pieces with spaces gives the
/// line back.
pub proof fn law_split_then_join(s: Seq<char>)
    ensures
        join_seq(split_spaces(s), " "@) == s,
    decreases s.len(),
{
    if s.len() == 0 {
        assert(join_seq(split_spaces(s), " "@) == Seq::<char>::empty());
    } else {
        law_split_then_join(s.drop_last());
        crate::submit::lemma_split_nonempty(s.drop_last());
        let r = split_spaces(s.drop_last());
        if s.last() == ' ' {
            let u = r.push(Seq::empty());
            assert(u.drop_last() =~= r);
            reveal_strlit(" ");
            assert(join_seq(u, " "@) =~= s.drop_last() + " "@ + Seq::<char>::empty());
            assert(s.drop_last() + " "@ + Seq::<char>::empty() =~= s);
        } else {
            lemma_join_push_last(r, " "@, s.last());
            assert(s.drop_last().push(s.last()) =~= s);
        }
    }
}


// ---------------------------------------------------------------------------
// Log lines
// ---------------------------------------------------------------------------

/// Where `a` holds no first character of `pat`, the first `pat` in `a + pat + b` is the one
/// right after `a`.
proof fn lemma_find_after(a: Seq<char>, pat: Seq<char>, b: Seq<char>)
    requires
        pat.len() > 0,
        forall|i: int| 0 <= i < a.len() ==> a[i] != pat[0],
    ensures
        find_first(a + pat + b, pat) == Some(a.len() as int),
    decreases a.len(),
{
    let s = a + pat + b;
    if a.len() == 0 {
        assert(s.take(pat.len() as int) =~= pat);
    } else {
        assert(s.take(pat.len() as int)[0] == a[0]);
        assert(s.drop_first() =~= a.drop_first() + pat + b);
        lemma_find_after(a.drop_first(), pat, b);
    }
}

/// Trimming the end of `p + m` keeps `p` when something of `m` stays.
proof fn lemma_trimmed_end_concat(p: Seq<char>, m: Seq<char>)
    requires
        trimmed_end(m).len() > 0,
    ensures
        trimmed_end(p + m) == p + trimmed_end(m),
    decreases m.len(),
{
    if m.len() > 0 && is_space(m.last()) {
        assert((p + m).drop_last() =~= p + m.drop_last());
        lemma_trimmed_end_concat(p, m.drop_last());
    } else {
        assert((p + m).last() == m.last());
    }
}

/// A line written to the log reads back, once trimmed as the reader does, as its date, its
/// time, its kind and its text without the whitespace at its end, where the date holds no
/// space or `]`, the time holds no `]`, and the text is not all whitespace.
pub proof fn law_log_line_reads_back(date: Seq<char>, time: Seq<char>, kind: LogType, msg: Seq<char>)
    requires
        forall|i: int| 0 <= i < date.len() ==> date[i] != ' ' && date[i] != ']',
        forall|i: int| 0 <= i < time.len() ==> time[i] != ']',
        trimmed_end(msg).len() > 0,
    ensures
        parse_log_ok(trimmed(log_line_spec(date + " "@ + time, kind, msg))),
        parse_log_spec(trimmed(log_line_spec(date + " "@ + time, kind, msg))) == Some(
            (date, time, log_type_name(kind), trimmed_end(msg)),
        ),
{
    reveal_strlit("[");
    reveal_strlit(" ");
    reveal_strlit("] ");
    reveal_strlit(": ");
    reveal_strlit("\n");
    reveal_strlit("ERROR");
    reveal_strlit("WARN");
    reveal_strlit("INFO");
    reveal_strlit("DEBUG");
    let k = log_type_name(kind);
    let t = trimmed_end(msg);
    let line = log_line_spec(date + " "@ + time, kind, msg);
    let pre = "["@ + date + " "@ + time + "] "@ + k + ": "@;
    assert(line =~= pre + (msg + "\n"@));
    assert(trimmed_start(line) == line);
    assert((msg + "\n"@).drop_last() =~= msg);
    assert(trimmed_end(msg + "\n"@) == t);
    lemma_trimmed_end_concat(pre, msg + "\n"@);
    let l = pre + t;
    assert(trimmed(line) == l);
    let a = "["@ + date + " "@ + time;
    assert forall|i: int| 0 <= i < a.len() implies a[i] != seq![']'][0] by {
        if i > 0 && i <= date.len() {
            assert(a[i] == date[i - 1]);
        } else if i > date.len() + 1 {
            assert(a[i] == time[i - date.len() - 2]);
        }
    }
    let after = " "@ + k + ": "@ + t;
    assert(l =~= a + seq![']'] + after);
    lemma_find_after(a, seq![']'], after);
    let b = a.len() as int;
    let dt = l.subrange(1, b);
    assert(dt =~= date + seq![' '] + time);
    lemma_find_after(date, seq![' '], time);
    assert(dt.take(date.len() as int) =~= date);
    assert(dt.skip(date.len() as int + 1) =~= time);
    assert(l.skip(b + 1) =~= after);
    assert(k.len() > 0 && !is_space(k[0]));
    assert(after.drop_first() =~= k + ": "@ + t);
    assert(trimmed_start(k + ": "@ + t) == k + ": "@ + t);
    let rest = k + ": "@ + t;
    assert(trimmed_start(after) == rest);
    assert(forall|i: int| 0 <= i < k.len() ==> k[i] != ':');
    assert(rest =~= k + seq![':', ' '] + t);
    lemma_find_after(k, seq![':', ' '], t);
    assert(rest.take(k.len() as int) =~= k);
    assert(rest.skip(k.len() as int + 2) =~= t);
    assert(l[0] == '[');
}


// ---------------------------------------------------------------------------
// Vim's normal mode
// ---------------------------------------------------------------------------

/// In a chat, selecting the message above with `k` and going back down with `j` gives back
/// the state as it was.
pub proof fn law_select_up_then_down(s: AppView)
    requires
        s.state is Chatting,
        pending_op(s) is None,
        s.selection_index < shown_messages(s).len(),
        s.selection_index < usize::MAX,
    ensures
        after_vim_key(after_vim_key(s, 'k'), 'j') == s,
{
    let t = after_vim_key(s, 'k');
    assert(t == AppView { selection_index: (s.selection_index + 1) as usize, ..s });
    assert(pending_op(t) is None);
}

/// Deleting the character under the cursor with `x` takes out exactly that character.
pub proof fn law_x_deletes_under_cursor(s: AppView)
    requires
        pending_op(s) is None,
        is_boundary(s.input, s.cursor_position as int),
        index_at(s.input, s.cursor_position as int) < s.input.len(),
    ensures
        after_vim_key(s, 'x').input == remove_at(s.input, index_at(s.input, s.cursor_position as int)),
        after_vim_key(s, 'x').input.len() + 1 == s.input.len(),
{
}

} // verus!
