use vstd::prelude::*;

use crate::api::lit;
use crate::app::{App, AppView};
use crate::state::{AppState, Effect};
use crate::text::{chars_of, string_of, string_of_range};
use crate::textbuf::{
    byte_len, byte_len_exec, char_before, char_len, char_len_exec, index_at, index_at_exec,
    insert_at, insert_char, insert_chars, insert_seq_at, is_boundary, lemma_index_at,
    lemma_insert_offset, lemma_insert_seq_offset, lemma_offset_full, lemma_offset_mono,
    lemma_offset_zero, lemma_remove_offset, offset_of, remove_at, remove_char,
};

verus! {

// ---------------------------------------------------------------------------
// The typing notice
// ---------------------------------------------------------------------------

/// The service is told that the user types: the user does not type silently, is chatting
/// with some text in the input, and did not tell it in the last eight seconds.
pub open spec fn typing_due(s: AppView, now: u64) -> bool {
    !s.silent_typing && s.state is Chatting && s.input.len() > 0 && match s.last_typing_sent {
        None => true,
        Some(t) => now >= t && now - t >= 8000,
    }
}

pub open spec fn after_typing(s: AppView, now: u64) -> AppView {
    if typing_due(s, now) {
        AppView { last_typing_sent: Some(now), ..s }
    } else {
        s
    }
}

/// The effects that the typing notice makes: none, or a notice for the chat on screen.
pub open spec fn typing_effects(s: AppView, now: u64, effects: Seq<Effect>) -> bool {
    if typing_due(s, now) {
        effects.len() == 1 && (effects[0] matches Effect::TriggerTyping { channel_id } && channel_id@
            == s.state->Chatting_0.id_view())
    } else {
        effects.len() == 0
    }
}

impl App {
    /// Tells the service that the user types, when due.
    pub fn handle_user_typing(&mut self, now: u64, effects: &mut Vec<Effect>)
        ensures
            final(self)@ == after_typing(old(self)@, now),
            typing_effects(old(self)@, now, final(effects)@.skip(old(effects)@.len() as int)),
            final(effects)@.take(old(effects)@.len() as int) == old(effects)@,
    {
        let n0 = effects.len();
        assert(effects@.skip(n0 as int).len() == 0);
        assert(effects@.take(n0 as int) =~= effects@);
        if self.silent_typing {
            return;
        }
        let due = match self.last_typing_sent {
            None => true,
            Some(t) => now >= t && now - t >= 8000,
        };
        if due && !self.input.as_str().is_empty() {
            if let AppState::Chatting(ch) = &self.state {
                let id = ch.get_id();
                self.last_typing_sent = Some(now);
                let ghost e0 = effects@;
                effects.push(Effect::TriggerTyping { channel_id: id });
                assert(effects@.skip(n0 as int) =~= seq![effects@[n0 as int]]);
                assert(effects@.take(n0 as int) =~= e0);
            }
        }
        assert(self@ =~= after_typing(old(self)@, now));
    }
}

// ---------------------------------------------------------------------------
// Inserting text
// ---------------------------------------------------------------------------

/// The character index of the cursor.
pub open spec fn cur_index(s: AppView) -> int {
    index_at(s.input, s.cursor_position as int)
}

/// The emoji filter after an edit: the text from just after the `:` that started it up
/// to the cursor; empty when the cursor is at or before the `:`.
pub open spec fn recomputed_filter(input: Seq<char>, cursor: int, start: Option<usize>) -> Seq<char> {
    match start {
        None => Seq::empty(),
        Some(st) => {
            let fs = st + 1;
            let len = byte_len(input) as int;
            if cursor <= st || fs > len {
                Seq::empty()
            } else {
                let end = if cursor < len {
                    cursor
                } else {
                    len
                };
                if fs <= end {
                    input.subrange(index_at(input, fs), index_at(input, end))
                } else {
                    Seq::empty()
                }
            }
        },
    }
}

/// Recomputing the emoji filter does not fail: the positions cut at are boundaries.
pub open spec fn filter_ok(input: Seq<char>, cursor: int, start: Option<usize>) -> bool {
    match start {
        None => true,
        Some(st) => {
            let fs = st + 1;
            let len = byte_len(input) as int;
            let end = if cursor < len {
                cursor
            } else {
                len
            };
            st < usize::MAX && (!(cursor <= st || fs > len) && fs <= end ==> is_boundary(input, fs) && is_boundary(input, end))
        },
    }
}

pub open spec fn emoji_status() -> Seq<char> {
    "Type to filter emoji. Enter to select. Esc to cancel."@
}

pub open spec fn emoji_insert_cancel_status() -> Seq<char> {
    "Chatting in channel. Press Enter to send message. Esc to return channels"@
}

pub open spec fn emoji_erase_cancel_status() -> Seq<char> {
    "Chatting in channel. Press Enter to send message. Esc to return to channels"@
}

/// The input with `c` typed at the cursor.
pub open spec fn with_char(s: AppView, c: char) -> AppView {
    AppView {
        input: insert_at(s.input, cur_index(s), c),
        cursor_position: (s.cursor_position + char_len(c)) as usize,
        ..s
    }
}

/// Typing a character does not fail.
pub open spec fn insert_ok(s: AppView, c: char) -> bool {
    &&& is_boundary(s.input, s.cursor_position as int)
    &&& s.cursor_position + char_len(c) <= usize::MAX
    &&& byte_len(s.input) + char_len(c) <= usize::MAX
    &&& (s.state is EmojiSelection && c != ' ') ==> filter_ok(
        with_char(s, c).input,
        with_char(s, c).cursor_position as int,
        s.emoji_filter_start,
    )
}

/// The state after typing `c`: in the emoji list a space ends the filter, and another
/// character recomputes it (an empty filter ends it).
pub open spec fn after_insert(s: AppView, c: char) -> AppView {
    let s1 = with_char(s, c);
    if s.state is EmojiSelection {
        if c == ' ' {
            AppView { emoji_filter: Seq::empty(), emoji_filter_start: None, selection_index: 0, ..s1 }
        } else {
            let f = recomputed_filter(s1.input, s1.cursor_position as int, s1.emoji_filter_start);
            if f.len() == 0 {
                AppView {
                    emoji_filter: f,
                    emoji_filter_start: None,
                    status_message: emoji_insert_cancel_status(),
                    selection_index: 0,
                    ..s1
                }
            } else {
                AppView { emoji_filter: f, selection_index: 0, ..s1 }
            }
        }
    } else {
        s1
    }
}

/// Pasting does not fail: the cursor is at a boundary and the text fits.
pub open spec fn paste_ok(s: AppView, text: Seq<char>) -> bool {
    is_boundary(s.input, s.cursor_position as int) && byte_len(s.input) + byte_len(text) <= usize::MAX
}

/// The state after pasting `text` at the cursor.
pub open spec fn after_paste(s: AppView, text: Seq<char>) -> AppView {
    AppView {
        input: insert_seq_at(s.input, cur_index(s), text),
        cursor_position: (s.cursor_position + byte_len(text)) as usize,
        ..s
    }
}

impl App {
    /// The input as characters, with the character index of the cursor.
    fn input_at_cursor(&self) -> (r: (Vec<char>, usize))
        requires
            is_boundary(self@.input, self.cursor_position as int),
        ensures
            r.0@ == self@.input,
            r.1 == cur_index(self@),
            r.1 <= r.0.len(),
            offset_of(r.0@, r.1 as int) == self.cursor_position,
    {
        let v = chars_of(self.input.as_str());
        let k = index_at_exec(&v, self.cursor_position);
        (v, k.unwrap())
    }

    /// Recomputes the emoji filter from the input, the cursor and where the filter started.
    pub(crate) fn recompute_filter(&mut self)
        requires
            filter_ok(old(self)@.input, old(self)@.cursor_position as int, old(self)@.emoji_filter_start),
            byte_len(old(self)@.input) <= usize::MAX,
        ensures
            final(self)@ == (AppView {
                emoji_filter: recomputed_filter(old(self)@.input, old(self)@.cursor_position as int, old(self)@.emoji_filter_start),
                ..old(self)@
            }),
    {
        let v = chars_of(self.input.as_str());
        let len = byte_len_exec(&v);
        let f = match self.emoji_filter_start {
            None => String::new(),
            Some(start) => {
                let fs = start + 1;
                if self.cursor_position <= start || fs > len {
                    String::new()
                } else {
                    let end = if self.cursor_position < len {
                        self.cursor_position
                    } else {
                        len
                    };
                    if fs <= end {
                        let a = index_at_exec(&v, fs).unwrap();
                        let b = index_at_exec(&v, end).unwrap();
                        proof {
                            if b < a {
                                crate::textbuf::lemma_offset_strict(v@, b as int, a as int);
                            }
                        }
                        string_of_range(&v, a, b)
                    } else {
                        String::new()
                    }
                }
            },
        };
        self.emoji_filter = f;
        assert(self@ =~= (AppView {
            emoji_filter: recomputed_filter(old(self)@.input, old(self)@.cursor_position as int, old(self)@.emoji_filter_start),
            ..old(self)@
        }));
    }

    /// Types `c` at the cursor; in the emoji list the filter follows.
    #[verifier::rlimit(40)]
    pub fn insert_char_at_cursor(&mut self, c: char)
        requires
            insert_ok(old(self)@, c),
        ensures
            final(self)@ == after_insert(old(self)@, c),
    {
        let (mut v, k) = self.input_at_cursor();
        proof {
            lemma_insert_offset(v@, k as int, c);
            lemma_offset_full(v@);
            lemma_offset_mono(v@, k as int, v.len() as int);
            crate::textbuf::lemma_byte_len_concat(v@.take(k as int).push(c), v@.skip(k as int));
        }
        insert_char(&mut v, k, c);
        self.input = string_of(&v);
        self.cursor_position = self.cursor_position + char_len_exec(c);
        proof {
            lemma_index_at(v@, k as int + 1);
        }
        assert(self@ =~= with_char(old(self)@, c));
        if let AppState::EmojiSelection(_) = &self.state {
            if c == ' ' {
                self.emoji_filter = String::new();
                self.emoji_filter_start = None;
            } else {
                proof {
                    crate::textbuf::lemma_byte_len_concat(old(self)@.input.take(k as int).push(c), old(self)@.input.skip(k as int));
                    crate::textbuf::lemma_byte_len_push(old(self)@.input.take(k as int), c);
                    crate::textbuf::lemma_byte_len_concat(old(self)@.input.take(k as int), old(self)@.input.skip(k as int));
                    assert(old(self)@.input.take(k as int) + old(self)@.input.skip(k as int) =~= old(self)@.input);
                }
                self.recompute_filter();
                if self.emoji_filter.as_str().is_empty() {
                    self.emoji_filter_start = None;
                    self.status_message = lit(
                        "Chatting in channel. Press Enter to send message. Esc to return channels",
                    );
                }
            }
            self.selection_index = 0;
        }
        assert(self@ =~= after_insert(old(self)@, c));
    }

    /// Pastes `text` at the cursor.
    pub fn paste(&mut self, text: String)
        requires
            paste_ok(old(self)@, text@),
        ensures
            final(self)@ == after_paste(old(self)@, text@),
    {
        let (mut v, k) = self.input_at_cursor();
        let t = chars_of(text.as_str());
        proof {
            lemma_offset_full(v@);
            lemma_offset_mono(v@, k as int, v.len() as int);
            lemma_insert_seq_offset(v@, k as int, t@);
        }
        let tl = byte_len_exec(&t);
        insert_chars(&mut v, k, &t);
        self.input = string_of(&v);
        self.cursor_position = self.cursor_position + tl;
        assert(self@ =~= after_paste(old(self)@, text@));
    }
}

} // verus!
