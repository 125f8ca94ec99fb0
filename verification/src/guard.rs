use vstd::prelude::*;

use crate::app::{App, AppView};
use crate::editing::{filter_ok, insert_ok, paste_ok, with_char};
use crate::keys::{
    back_from, backspace_ok, chat_delete_cursor, delete_end, delete_ok, erase_back, erased,
    escape_ok, fixup_ok, leaves_line, leaves_mode, restored, select_emoji_ok, vim_normal,
};
use crate::api::Message;
use crate::incoming::message_create_ok;
use crate::navigate::{channel_entries, emoji_total, entries_of, move_ok, name_fits_exec, shown_children, shows_content_exec};
use crate::screens::to_chat_ok;
use crate::state::{AppAction, AppState, Channel, InputMode, PermissionContext};
use crate::step::action_ok;
use crate::vim::vim_key_ok;
use crate::submit::{line_restored, mention_scan_exec, pick_dm, pick_guild, submit_ok};
use crate::text::{chars_of, str_eq, to_lowercase};
use crate::textbuf::{
    byte_len, char_before, char_len, char_len_exec, index_at, index_at_exec, insert_char, is_boundary,
    lemma_byte_len_insert, lemma_byte_len_remove, lemma_offset_full, lemma_offset_mono,
    lemma_offset_step, offset_of, remove_char,
};

verus! {

// ---------------------------------------------------------------------------
// Text positions
// ---------------------------------------------------------------------------

/// The byte length of the characters, where it fits in `usize`.
pub fn byte_len_checked(v: &Vec<char>) -> (r: Option<usize>)
    ensures
        match r {
            Some(n) => n == byte_len(v@),
            None => byte_len(v@) > usize::MAX,
        },
{
    let mut n: usize = 0;
    let mut i: usize = 0;
    proof {
        crate::textbuf::lemma_offset_zero(v@);
    }
    while i < v.len()
        invariant
            i <= v.len(),
            n == offset_of(v@, i as int),
        decreases v.len() - i,
    {
        proof {
            lemma_offset_step(v@, i as int);
        }
        match n.checked_add(char_len_exec(v[i])) {
            Some(m) => n = m,
            None => {
                proof {
                    lemma_offset_mono(v@, i as int + 1, v.len() as int);
                    lemma_offset_full(v@);
                }
                return None;
            },
        }
        i += 1;
    }
    proof {
        lemma_offset_full(v@);
    }
    Some(n)
}

/// Whether `b` is a character boundary of the characters.
fn boundary(v: &Vec<char>, b: usize) -> (r: bool)
    ensures
        r == is_boundary(v@, b as int),
{
    index_at_exec(v, b).is_some()
}

/// The character before the boundary `b`.
fn before(v: &Vec<char>, b: usize) -> (r: Option<char>)
    requires
        is_boundary(v@, b as int),
    ensures
        r == char_before(v@, b as int),
        r matches Some(c) ==> char_len(c) <= b,
{
    let k = index_at_exec(v, b).unwrap();
    if k == 0 {
        None
    } else {
        proof {
            lemma_offset_step(v@, k as int - 1);
        }
        Some(v[k - 1])
    }
}

/// The characters with the one before the boundary `b` removed.
fn without_before(v: &Vec<char>, b: usize) -> (r: Vec<char>)
    requires
        is_boundary(v@, b as int),
        char_before(v@, b as int) is Some,
    ensures
        r@ == erased(v@, b as int),
        byte_len(r@) == byte_len(v@) - char_len(v@[index_at(v@, b as int) - 1]),
{
    let k = index_at_exec(v, b).unwrap();
    let mut w = v.clone();
    assert(w@ == v@);
    remove_char(&mut w, k - 1);
    proof {
        lemma_byte_len_remove(v@, k as int - 1);
    }
    w
}

/// Whether recomputing the emoji filter over the characters (of byte length `len`) with the
/// cursor at `cursor` does not fail.
fn filter_ok_exec(v: &Vec<char>, len: usize, cursor: usize, start: Option<usize>) -> (r: bool)
    requires
        len == byte_len(v@),
    ensures
        r == filter_ok(v@, cursor as int, start),
{
    match start {
        None => true,
        Some(st) => {
            if st == usize::MAX {
                return false;
            }
            let fs = st + 1;
            let end = if cursor < len {
                cursor
            } else {
                len
            };
            if !(cursor <= st || fs > len) && fs <= end {
                boundary(v, fs) && boundary(v, end)
            } else {
                true
            }
        },
    }
}

impl App {
    /// Whether typing `c` at the cursor does not fail.
    pub fn insert_ok_exec(&self, c: char) -> (r: bool)
        ensures
            r == insert_ok(self@, c),
    {
        let v = chars_of(self.input.as_str());
        let len = match byte_len_checked(&v) {
            Some(n) => n,
            None => return false,
        };
        let k = match index_at_exec(&v, self.cursor_position) {
            Some(k) => k,
            None => return false,
        };
        let w = char_len_exec(c);
        if self.cursor_position > usize::MAX - w || len > usize::MAX - w {
            return false;
        }
        let in_list = match &self.state {
            AppState::EmojiSelection(_) => true,
            _ => false,
        };
        if in_list && c != ' ' {
            let mut u = v.clone();
            insert_char(&mut u, k, c);
            proof {
                lemma_byte_len_insert(v@, k as int, c);
            }
            assert(u@ == with_char(self@, c).input);
            filter_ok_exec(&u, len + w, self.cursor_position + w, self.emoji_filter_start)
        } else {
            true
        }
    }

    /// Whether the cursor can be fixed up as vim does when leaving a mode.
    fn fixup_ok_exec(v: &Vec<char>, cursor: usize) -> (r: bool)
        ensures
            forall|s: AppView| s.input == v@ && s.cursor_position == cursor ==> r == #[trigger] fixup_ok(s),
    {
        let len = match byte_len_checked(v) {
            Some(n) => n,
            None => return false,
        };
        let b = if 0 < cursor && cursor <= len {
            cursor
        } else {
            len
        };
        boundary(v, b)
    }

    /// Whether Escape does not fail.
    pub fn escape_ok_exec(&self) -> (r: bool)
        ensures
            r == escape_ok(self@),
    {
        if (self.vim_mode && self.mode == InputMode::Insert) || self.mode == InputMode::Command
            || self.mode == InputMode::Search {
            let v = chars_of(self.input.as_str());
            App::fixup_ok_exec(&v, self.cursor_position)
        } else {
            true
        }
    }
}

impl App {
    /// Whether Backspace does not fail.
    pub fn backspace_ok_exec(&self) -> (r: bool)
        ensures
            r == backspace_ok(self@),
    {
        let v = chars_of(self.input.as_str());
        let len = match byte_len_checked(&v) {
            Some(n) => n,
            None => return false,
        };
        let cursor = self.cursor_position;
        if self.vim_mode && self.mode == InputMode::Normal {
            return boundary(&v, cursor);
        }
        if self.vim_mode && (self.mode == InputMode::Command || self.mode == InputMode::Search)
            && self.input.as_str().is_empty() {
            let saved = match &self.saved_input {
                Some(t) => chars_of(t.as_str()),
                None => Vec::new(),
            };
            let r = App::fixup_ok_exec(&saved, cursor);
            assert(restored(self@).input == saved@);
            return r;
        }
        match &self.state {
            AppState::Chatting(_) => boundary(&v, cursor),
            AppState::EmojiSelection(_) => {
                if !boundary(&v, cursor) {
                    return false;
                }
                match before(&v, cursor) {
                    None => true,
                    Some(c) => {
                        let w = without_before(&v, cursor);
                        let n = char_len_exec(c);
                        let ghost e = erase_back(self@, cursor as int);
                        assert(e.input == w@);
                        assert(e.cursor_position == cursor - n);
                        filter_ok_exec(&w, len - n, cursor - n, self.emoji_filter_start)
                    },
                }
            },
            _ => {
                let b = if 0 < cursor && cursor <= len {
                    cursor
                } else {
                    len
                };
                assert(b == back_from(self@));
                if !boundary(&v, b) {
                    return false;
                }
                match before(&v, b) {
                    None => true,
                    Some(c) => cursor >= char_len_exec(c),
                }
            },
        }
    }

    /// Whether Delete does not fail.
    pub fn delete_ok_exec(&self) -> (r: bool)
        ensures
            r == delete_ok(self@),
    {
        let v = chars_of(self.input.as_str());
        let len = match byte_len_checked(&v) {
            Some(n) => n,
            None => return false,
        };
        let cursor = self.cursor_position;
        match &self.state {
            AppState::Chatting(_) => {
                if v.len() == 0 {
                    return true;
                }
                proof {
                    crate::textbuf::lemma_byte_len_nonempty(v@);
                }
                let at = if cursor >= len {
                    len - 1
                } else {
                    cursor
                };
                assert(at == chat_delete_cursor(self@));
                boundary(&v, at + 1)
            },
            AppState::EmojiSelection(_) => {
                if cursor == usize::MAX || !boundary(&v, cursor + 1) {
                    return false;
                }
                match before(&v, cursor + 1) {
                    None => true,
                    Some(c) => {
                        let w = without_before(&v, cursor + 1);
                        let n = char_len_exec(c);
                        filter_ok_exec(&w, len - n, cursor, self.emoji_filter_start)
                    },
                }
            },
            _ => {
                let b = if cursor < len {
                    cursor + 1
                } else {
                    len
                };
                assert(b == delete_end(self@));
                boundary(&v, b)
            },
        }
    }

    /// Whether asking for the emoji list does not fail.
    pub fn select_emoji_ok_exec(&self) -> (r: bool)
        ensures
            r == select_emoji_ok(self@),
    {
        match &self.state {
            AppState::Chatting(_) | AppState::Editing(_, _, _) => self.insert_ok_exec(':'),
            _ => true,
        }
    }

    /// Whether pasting `text` does not fail.
    pub fn paste_ok_exec(&self, text: &str) -> (r: bool)
        ensures
            r == paste_ok(self@, text@),
    {
        let v = chars_of(self.input.as_str());
        let t = chars_of(text);
        if !boundary(&v, self.cursor_position) {
            return false;
        }
        match (byte_len_checked(&v), byte_len_checked(&t)) {
            (Some(a), Some(b)) => a <= usize::MAX - b,
            _ => false,
        }
    }
}

// ---------------------------------------------------------------------------
// Lists, Enter and the other actions
// ---------------------------------------------------------------------------

/// How many entries a channel makes in the channel list, where that fits in `usize`.
fn entries_of_checked(c: &Channel, ctx: &Option<PermissionContext>, filter: &Vec<char>) -> (r: Option<usize>)
    ensures
        match r {
            Some(n) => n == entries_of(*c, *ctx, filter@),
            None => entries_of(*c, *ctx, filter@) > usize::MAX,
        },
{
    if c.channel_type == 4 {
        let mut n: usize = 0;
        if let Some(cs) = &c.children {
            let mut i: usize = 0;
            while i < cs.len()
                invariant
                    i <= cs.len(),
                    n == shown_children(cs@.take(i as int), *ctx, filter@),
                    n <= i,
                decreases cs.len() - i,
            {
                let ghost t = cs@.take(i as int + 1);
                assert(t.drop_last() =~= cs@.take(i as int));
                if shows_content_exec(cs[i].id.as_str(), cs[i].name.as_str(), ctx, filter) {
                    n += 1;
                }
                i += 1;
            }
            assert(cs@.take(i as int) =~= cs@);
        }
        if name_fits_exec(c.name.as_str(), filter) || n > 0 {
            n.checked_add(1)
        } else {
            Some(0)
        }
    } else if shows_content_exec(c.id.as_str(), c.name.as_str(), ctx, filter) {
        Some(1)
    } else {
        Some(0)
    }
}

/// The number of entries of the channel list, where that fits in `usize`.
pub(crate) fn channel_entries_checked(cs: &Vec<Channel>, ctx: &Option<PermissionContext>, filter: &Vec<char>) -> (r: Option<usize>)
    ensures
        match r {
            Some(n) => n == channel_entries(cs@, *ctx, filter@),
            None => channel_entries(cs@, *ctx, filter@) > usize::MAX,
        },
{
    let mut n: usize = 0;
    let mut i: usize = 0;
    while i < cs.len()
        invariant
            i <= cs.len(),
            n == channel_entries(cs@.take(i as int), *ctx, filter@),
        decreases cs.len() - i,
    {
        let ghost t = cs@.take(i as int + 1);
        assert(t.drop_last() =~= cs@.take(i as int));
        assert(t.last() == cs@[i as int]);
        let e = match entries_of_checked(&cs[i], ctx, filter) {
            Some(e) => e,
            None => {
                proof {
                    lemma_entries_prefix(cs@, i as int + 1, *ctx, filter@);
                }
                return None;
            },
        };
        match n.checked_add(e) {
            Some(m) => n = m,
            None => {
                proof {
                    lemma_entries_prefix(cs@, i as int + 1, *ctx, filter@);
                }
                return None;
            },
        }
        i += 1;
    }
    assert(cs@.take(i as int) =~= cs@);
    Some(n)
}

proof fn lemma_entries_prefix(cs: Seq<Channel>, k: int, ctx: Option<PermissionContext>, filter: Seq<char>)
    requires
        0 <= k <= cs.len(),
    ensures
        channel_entries(cs.take(k), ctx, filter) <= channel_entries(cs, ctx, filter),
    decreases cs.len() - k,
{
    if k < cs.len() {
        lemma_entries_prefix(cs, k + 1, ctx, filter);
        assert(cs.take(k + 1).drop_last() =~= cs.take(k));
    } else {
        assert(cs.take(k) =~= cs);
    }
}

impl App {
    /// Whether moving the selection does not fail.
    pub fn move_ok_exec(&self, forward: bool) -> (r: bool)
        ensures
            r == (self@.emoji_map.len() + self@.custom_emojis.len() <= usize::MAX && move_ok(
                self@,
                forward,
                emoji_total(self@),
            )),
    {
        if self.emoji_map.len() > usize::MAX - self.custom_emojis.len() {
            return false;
        }
        let total = self.emoji_total();
        match &self.state {
            AppState::SelectingChannel(_) => {
                if self.channels.len() == 0 {
                    return true;
                }
                let low = to_lowercase(self.search_input.as_str());
                let f = chars_of(low.as_str());
                match channel_entries_checked(&self.channels, &self.context, &f) {
                    None => false,
                    Some(n) => if forward {
                        n > 0 && self.selection_index < usize::MAX
                    } else {
                        n > 0 || self.selection_index > 0
                    },
                }
            },
            AppState::Home | AppState::SelectingDM | AppState::SelectingGuild => {
                let len: usize = match &self.state {
                    AppState::Home => 3,
                    AppState::SelectingDM => self.dms.len(),
                    _ => self.guilds.len(),
                };
                !(len > 0 && forward) || self.selection_index < usize::MAX
            },
            AppState::EmojiSelection(_) => !(total > 0 && forward) || self.emoji_index < usize::MAX,
            _ => true,
        }
    }

    /// Whether Enter does not fail.
    pub fn submit_ok_exec(&self) -> (r: bool)
        ensures
            r == submit_ok(self@),
    {
        if self.vim_mode && (self.mode == InputMode::Command || self.mode == InputMode::Search) {
            let saved = match &self.saved_input {
                Some(t) => chars_of(t.as_str()),
                None => Vec::new(),
            };
            let r = App::fixup_ok_exec(&saved, self.cursor_position);
            assert(line_restored(self@).input == saved@);
            return r;
        }
        match &self.state {
            AppState::SelectingDM => {
                let low = to_lowercase(self.search_input.as_str());
                let f = chars_of(low.as_str());
                pick_dm(&self.dms, &f, self.selection_index).is_some() || pick_dm(&self.dms, &f, 0).is_none()
            },
            AppState::SelectingGuild => {
                let low = to_lowercase(self.search_input.as_str());
                let f = chars_of(low.as_str());
                pick_guild(&self.guilds, &f, self.selection_index).is_some() || pick_guild(&self.guilds, &f, 0).is_none()
            },
            AppState::EmojiSelection(_) => {
                match self.emoji_filter_start {
                    None => true,
                    Some(st) => {
                        let fv = chars_of(self.emoji_filter.as_str());
                        let iv = chars_of(self.input.as_str());
                        let flen = match byte_len_checked(&fv) {
                            Some(n) => n,
                            None => return false,
                        };
                        if byte_len_checked(&iv).is_none() || st > usize::MAX - 1 || st + 1 > usize::MAX - flen {
                            return false;
                        }
                        match self.chosen_emoji_exec() {
                            None => true,
                            Some(t) => {
                                let tv = chars_of(t.as_str());
                                match byte_len_checked(&tv) {
                                    None => false,
                                    Some(tl) => tl < usize::MAX && st <= usize::MAX - 1 - tl,
                                }
                            },
                        }
                    },
                }
            },
            AppState::Chatting(ch) => {
                let id = ch.get_id();
                if self.input.as_str().is_empty() || id.as_str().is_empty() {
                    true
                } else {
                    let v = chars_of(self.input.as_str());
                    mention_scan_exec(&v).is_some()
                }
            },
            _ => true,
        }
    }

    /// Whether a message's arrival does not fail.
    pub fn message_create_ok_exec(&self, m: &Message) -> (r: bool)
        ensures
            r == message_create_ok(self@, *m),
    {
        match &self.state {
            AppState::Chatting(ch) => {
                let id = ch.get_id();
                if str_eq(id.as_str(), m.channel_id.as_str()) {
                    self.selection_index < usize::MAX
                } else {
                    true
                }
            },
            _ => true,
        }
    }

    /// Whether opening a chat does not fail.
    pub fn to_chat_ok_exec(&self) -> (r: bool)
        ensures
            r == to_chat_ok(self@),
    {
        match (&self.state, self.emoji_filter_start) {
            (AppState::EmojiSelection(_), Some(st)) => {
                let fv = chars_of(self.emoji_filter.as_str());
                match byte_len_checked(&fv) {
                    None => false,
                    Some(n) => st < usize::MAX && st + 1 <= usize::MAX - n,
                }
            },
            _ => true,
        }
    }

    /// Whether a key of vim's normal mode does not fail.
    pub fn vim_key_ok_exec(&self) -> (r: bool)
        ensures
            r == vim_key_ok(self@),
    {
        let v = chars_of(self.input.as_str());
        match byte_len_checked(&v) {
            Some(n) => n < usize::MAX && boundary(&v, self.cursor_position),
            None => false,
        }
    }

    /// Whether handling `action` does not fail: what the client checks before it hands an
    /// action on.
    pub fn accepts(&self, action: &AppAction) -> (r: bool)
        ensures
            r == action_ok(self@, *action),
    {
        match action {
            AppAction::InputChar(c) => {
                let c = *c;
                if c == ':' && (!self.vim_mode || self.mode == InputMode::Insert) {
                    true
                } else if self.vim_mode && self.mode == InputMode::Normal {
                    self.vim_key_ok_exec()
                } else {
                    self.insert_ok_exec(c)
                }
            },
            AppAction::InputBackspace => self.backspace_ok_exec(),
            AppAction::InputDelete => self.delete_ok_exec(),
            AppAction::InputEscape => self.escape_ok_exec(),
            AppAction::InputSubmit => self.submit_ok_exec(),
            AppAction::SelectNext => self.move_ok_exec(true),
            AppAction::SelectPrevious => self.move_ok_exec(false),
            AppAction::GatewayMessageCreate(m) => self.message_create_ok_exec(m),
            AppAction::TransitionToChat(_) => self.to_chat_ok_exec(),
            AppAction::TransitionToEditing(_, _, content, _) => {
                let v = chars_of(content.as_str());
                byte_len_checked(&v).is_some()
            },
            AppAction::SelectEmoji => self.select_emoji_ok_exec(),
            AppAction::SelectLeft | AppAction::SelectRight => self.vim_key_ok_exec(),
            AppAction::Paste(t) => self.paste_ok_exec(t.as_str()),
            AppAction::NewLogReceived(_) => {
                let in_logs = match &self.state {
                    AppState::Logs(_) => true,
                    _ => false,
                };
                !(in_logs && self.selection_index == usize::MAX)
            },
            _ => true,
        }
    }
}

} // verus!
