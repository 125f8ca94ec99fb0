use vstd::prelude::*;

use crate::api::{lit, same_guild};
use crate::app::{App, AppView};
use crate::editing::{
    after_insert, after_typing, emoji_erase_cancel_status, emoji_status, filter_ok, insert_ok,
    recomputed_filter, typing_effects, with_char,
};
use crate::state::{same_any_channel, AnyChannel, AppAction, AppState, Effect, InputMode, Step, Window};
use crate::text::{chars_of, string_of};
use crate::vim::{after_vim_key, vim_key_effects, vim_key_ok};
use crate::textbuf::{
    byte_len, byte_len_exec, char_before, char_len, char_len_exec, index_at, index_at_exec,
    is_boundary, lemma_byte_len_remove, lemma_index_at, lemma_offset_full, lemma_offset_mono,
    lemma_offset_zero, lemma_remove_offset, offset_of, remove_at, remove_char, lemma_byte_len_nonempty,
};

verus! {

// ---------------------------------------------------------------------------
// Removing characters
// ---------------------------------------------------------------------------

/// The text with the character just before the boundary `b` removed.
pub open spec fn erased(input: Seq<char>, b: int) -> Seq<char> {
    remove_at(input, index_at(input, b) - 1)
}

/// `a - b`, or zero where that is negative (`usize::saturating_sub`).
pub open spec fn sat_sub(a: usize, b: nat) -> usize {
    if a >= b {
        (a - b) as usize
    } else {
        0
    }
}

/// Where vim's normal mode looks back from after a change of mode: the cursor where it lies
/// inside the text past its start, else the end of the text.
pub open spec fn back_from(s: AppView) -> int {
    if 0 < s.cursor_position <= byte_len(s.input) {
        s.cursor_position as int
    } else {
        byte_len(s.input) as int
    }
}

/// Looking back from there does not fail.
pub open spec fn fixup_ok(s: AppView) -> bool {
    byte_len(s.input) <= usize::MAX && is_boundary(s.input, back_from(s))
}

/// Leaving insert mode steps the cursor back over the character before it, unless that
/// character is a newline.
pub open spec fn after_fixup(s: AppView) -> AppView {
    match char_before(s.input, back_from(s)) {
        Some(c) => if c != '\n' {
            AppView { cursor_position: sat_sub(s.cursor_position, char_len(c)), ..s }
        } else {
            s
        },
        None => s,
    }
}

/// After that, the cursor is kept on a character, unless it sits at the end of a text that
/// ends in a newline.
pub open spec fn clamps(s: AppView) -> bool {
    !(s.cursor_position == byte_len(s.input) && s.input.len() > 0 && s.input.last() == '\n')
}

/// The cursor kept on a character: past the end of a text that is not empty, it goes onto
/// the last character.
pub open spec fn on_char(s: AppView) -> AppView {
    if s.input.len() > 0 && s.cursor_position >= byte_len(s.input) {
        AppView { cursor_position: (byte_len(s.input) - char_len(s.input.last())) as usize, ..s }
    } else {
        s
    }
}

/// Leaving insert mode or the command line: the cursor steps back, and then is kept on a
/// character as `clamps` says.
pub open spec fn settled(s: AppView) -> AppView {
    let t = after_fixup(s);
    if clamps(t) {
        on_char(t)
    } else {
        t
    }
}

impl App {
    /// Removes the character just before the boundary `b`, and gives its length.
    pub(crate) fn remove_before(&mut self, b: usize) -> (r: Option<usize>)
        requires
            is_boundary(old(self)@.input, b as int),
        ensures
            match char_before(old(self)@.input, b as int) {
                Some(c) => final(self)@ == (AppView { input: erased(old(self)@.input, b as int), ..old(self)@ })
                    && r == Some(char_len(c) as usize) && char_len(c) <= b
                    && byte_len(erased(old(self)@.input, b as int)) == byte_len(old(self)@.input) - char_len(c),
                None => final(self)@ == old(self)@ && r is None,
            },
    {
        let mut v = chars_of(self.input.as_str());
        let k = index_at_exec(&v, b).unwrap();
        if k == 0 {
            return None;
        }
        let c = v[k - 1];
        proof {
            lemma_remove_offset(v@, k as int);
            crate::textbuf::lemma_offset_step(v@, k as int - 1);
            lemma_byte_len_remove(v@, k as int - 1);
        }
        remove_char(&mut v, k - 1);
        self.input = string_of(&v);
        assert(self@ =~= (AppView { input: erased(old(self)@.input, b as int), ..old(self)@ }));
        Some(char_len_exec(c))
    }

    /// The character just before the boundary `b` of the input.
    pub(crate) fn input_char_before(&self, b: usize) -> (r: Option<char>)
        requires
            is_boundary(self@.input, b as int),
        ensures
            r == char_before(self@.input, b as int),
            r matches Some(c) ==> char_len(c) <= b,
    {
        let v = chars_of(self.input.as_str());
        let k = index_at_exec(&v, b).unwrap();
        if k == 0 {
            None
        } else {
            proof {
                crate::textbuf::lemma_offset_step(v@, k as int - 1);
            }
            Some(v[k - 1])
        }
    }

    /// The byte length of the input.
    pub(crate) fn input_len(&self) -> (n: usize)
        requires
            byte_len(self@.input) <= usize::MAX,
        ensures
            n == byte_len(self@.input),
    {
        let v = chars_of(self.input.as_str());
        byte_len_exec(&v)
    }

    /// Steps the cursor back as vim does on leaving insert mode, then keeps it on a
    /// character unless it sits at the end of a text that ends in a newline.
    #[verifier::rlimit(40)]
    pub(crate) fn vim_fixup(&mut self)
        requires
            fixup_ok(old(self)@),
        ensures
            final(self)@ == settled(old(self)@),
    {
        let len = self.input_len();
        let pos = if self.cursor_position <= len && self.cursor_position > 0 {
            self.cursor_position
        } else {
            len
        };
        if let Some(c) = self.input_char_before(pos) {
            if c != '\n' {
                self.cursor_position = self.cursor_position.saturating_sub(char_len_exec(c));
            }
        }
        assert(self@ =~= after_fixup(old(self)@));
        self.keep_on_char(len);
    }

    /// Keeps the cursor on a character, as `clamps` says; `len` is the input's byte length.
    fn keep_on_char(&mut self, len: usize)
        requires
            len == byte_len(old(self)@.input),
        ensures
            final(self)@ == if clamps(old(self)@) {
                on_char(old(self)@)
            } else {
                old(self)@
            },
    {
        let v = chars_of(self.input.as_str());
        let ends_nl = v.len() > 0 && v[v.len() - 1] == '\n';
        if !(self.cursor_position == len && ends_nl) {
            if v.len() > 0 && self.cursor_position >= len {
                let last = char_len_exec(v[v.len() - 1]);
                self.cursor_position = len - last;
            }
        }
        assert(self@ =~= (if clamps(old(self)@) {
            on_char(old(self)@)
        } else {
            old(self)@
        }));
    }
}

// ---------------------------------------------------------------------------
// Escape
// ---------------------------------------------------------------------------

/// Escape leaves insert mode (in vim mode) or the command and search line.
pub open spec fn leaves_mode(s: AppView) -> bool {
    (s.vim_mode && s.mode == InputMode::Insert) || s.mode == InputMode::Command || s.mode
        == InputMode::Search
}

pub open spec fn escape_ok(s: AppView) -> bool {
    leaves_mode(s) ==> fixup_ok(s)
}

/// The state after escape.
pub open spec fn after_escape(s: AppView) -> AppView {
    if leaves_mode(s) {
        settled(AppView { mode: InputMode::Normal, ..s })
    } else {
        match s.state {
            AppState::SelectingChannel(_) => AppView {
                guild_members: Seq::empty(),
                selected_guild: None,
                ..s
            },
            _ => s,
        }
    }
}

/// `a` goes back to the screen `w`.
pub open spec fn returns_to(w: Window, a: AppAction) -> bool {
    match w {
        Window::Home => a is TransitionToHome,
        Window::Guild => a is TransitionToGuilds,
        Window::DM => a is TransitionToDM,
        Window::Channel(g) => a matches AppAction::TransitionToChannels(g2) && same_guild(*g2, *g),
        Window::Chat(c) => a matches AppAction::TransitionToChat(c2) && same_any_channel(*c2, *c),
    }
}

/// The effects are one follow-up action, for which `p` holds.
pub open spec fn sends_one(effects: Seq<Effect>, a: AppAction) -> bool {
    effects.len() == 1 && effects[0] == Effect::Send(a)
}

/// What escape asks for: where it leaves a mode, whether to keep the cursor on a character;
/// elsewhere, to go back one screen.
pub open spec fn escape_effects(s: AppView, effects: Seq<Effect>) -> bool {
    if leaves_mode(s) {
        effects.len() == 0
    } else {
        match s.state {
            AppState::Home | AppState::Loading(_) => effects.len() == 0,
            AppState::SelectingDM | AppState::SelectingGuild => sends_one(effects, AppAction::TransitionToHome),
            AppState::SelectingChannel(_) => sends_one(effects, AppAction::TransitionToGuilds),
            AppState::Chatting(ch) => effects.len() == 1 && (effects[0] matches Effect::LeaveChat {
                channel_id,
            } && channel_id@ == ch.id_view()),
            AppState::EmojiSelection(ch) | AppState::Editing(ch, _, _) => effects.len() == 1
                && (effects[0] matches Effect::Send(a) && returns_to(Window::Chat(ch), a)),
            AppState::Logs(w) => effects.len() == 1 && (effects[0] matches Effect::Send(a) && returns_to(w, a)),
        }
    }
}

/// The action that goes back to the screen `w`.
pub fn return_to(w: &Window) -> (a: AppAction)
    ensures
        returns_to(*w, a),
{
    match w {
        Window::Home => AppAction::TransitionToHome,
        Window::Guild => AppAction::TransitionToGuilds,
        Window::DM => AppAction::TransitionToDM,
        Window::Channel(g) => AppAction::TransitionToChannels(Box::new(g.copy())),
        Window::Chat(c) => AppAction::TransitionToChat(Box::new(c.copy())),
    }
}

impl App {
    /// Escape: leaves insert mode or the command line, or goes back one screen.
    pub fn input_escape(&mut self) -> (r: Step)
        requires
            escape_ok(old(self)@),
        ensures
            final(self)@ == after_escape(old(self)@),
            r.keyword is None,
            escape_effects(old(self)@, r.effects@),
    {
        let mut effects: Vec<Effect> = Vec::new();
        if (self.vim_mode && self.mode == InputMode::Insert) || self.mode == InputMode::Command
            || self.mode == InputMode::Search {
            self.mode = InputMode::Normal;
            self.vim_fixup();
            return Step { keyword: None, effects };
        }
        match &self.state {
            AppState::Home | AppState::Loading(_) => {},
            AppState::SelectingDM | AppState::SelectingGuild => {
                effects.push(Effect::Send(AppAction::TransitionToHome));
            },
            AppState::SelectingChannel(_) => {
                effects.push(Effect::Send(AppAction::TransitionToGuilds));
            },
            AppState::Chatting(ch) => {
                effects.push(Effect::LeaveChat { channel_id: ch.get_id() });
            },
            AppState::EmojiSelection(ch) | AppState::Editing(ch, _, _) => {
                effects.push(Effect::Send(AppAction::TransitionToChat(Box::new(ch.copy()))));
            },
            AppState::Logs(w) => {
                effects.push(Effect::Send(return_to(w)));
            },
        }
        if let AppState::SelectingChannel(_) = &self.state {
            self.guild_members = Vec::new();
            self.selected_guild = None;
        }
        assert(self@ =~= after_escape(old(self)@));
        Step { keyword: None, effects }
    }
}

// ---------------------------------------------------------------------------
// Backspace and delete
// ---------------------------------------------------------------------------

/// The command or search line, left by erasing it while empty: the saved input comes back.
pub open spec fn restored(s: AppView) -> AppView {
    AppView {
        mode: InputMode::Normal,
        input: match s.saved_input {
            Some(t) => t,
            None => Seq::empty(),
        },
        saved_input: None,
        ..s
    }
}

/// Backspace on an empty command or search line leaves it.
pub open spec fn leaves_line(s: AppView) -> bool {
    s.vim_mode && (s.mode == InputMode::Command || s.mode == InputMode::Search) && s.input.len() == 0
}

/// Backspace in vim's normal mode only moves the cursor.
pub open spec fn vim_normal(s: AppView) -> bool {
    s.vim_mode && s.mode == InputMode::Normal
}

/// The character before the boundary `b` removed, the cursor moved back by its length.
pub open spec fn erase_back(s: AppView, b: int) -> AppView {
    match char_before(s.input, b) {
        Some(c) => AppView {
            input: erased(s.input, b),
            cursor_position: (s.cursor_position - char_len(c)) as usize,
            ..s
        },
        None => s,
    }
}

/// The character before the boundary `b` removed; the cursor stays.
pub open spec fn erase_at(s: AppView, b: int) -> AppView {
    match char_before(s.input, b) {
        Some(_) => AppView { input: erased(s.input, b), ..s },
        None => s,
    }
}

/// The emoji filter follows an edit in the emoji list; with nothing left to filter by, the
/// list closes and the chat comes back.
pub open spec fn refiltered(s: AppView, ch: Box<AnyChannel>) -> AppView {
    let f = recomputed_filter(s.input, s.cursor_position as int, s.emoji_filter_start);
    if f.len() == 0 {
        AppView {
            emoji_filter: f,
            state: AppState::Chatting(ch),
            emoji_filter_start: None,
            status_message: emoji_erase_cancel_status(),
            ..s
        }
    } else {
        AppView { emoji_filter: f, ..s }
    }
}

/// Backspace does not fail: the positions read are boundaries and the cursor can move back.
pub open spec fn backspace_ok(s: AppView) -> bool {
    &&& byte_len(s.input) <= usize::MAX
    &&& if vim_normal(s) {
        is_boundary(s.input, s.cursor_position as int)
    } else if leaves_line(s) {
        fixup_ok(restored(s))
    } else {
        match s.state {
            AppState::Chatting(_) => is_boundary(s.input, s.cursor_position as int),
            AppState::EmojiSelection(_) => is_boundary(s.input, s.cursor_position as int) && (char_before(
                s.input,
                s.cursor_position as int,
            ) is Some ==> filter_ok(
                erase_back(s, s.cursor_position as int).input,
                erase_back(s, s.cursor_position as int).cursor_position as int,
                s.emoji_filter_start,
            )),
            _ => is_boundary(s.input, back_from(s)) && (char_before(s.input, back_from(s)) matches Some(c)
                ==> s.cursor_position >= char_len(c)),
        }
    }
}

/// The state after backspace at time `now` (in milliseconds).
pub open spec fn after_backspace(s: AppView, now: u64) -> AppView {
    if vim_normal(s) {
        match char_before(s.input, s.cursor_position as int) {
            Some(c) => AppView { cursor_position: (s.cursor_position - char_len(c)) as usize, ..s },
            None => s,
        }
    } else if leaves_line(s) {
        settled(restored(s))
    } else {
        match s.state {
            AppState::Chatting(_) => after_typing(erase_back(s, s.cursor_position as int), now),
            AppState::EmojiSelection(ch) => if char_before(s.input, s.cursor_position as int) is Some {
                AppView { selection_index: 0, ..refiltered(erase_back(s, s.cursor_position as int), ch) }
            } else {
                s
            },
            _ => erase_back(s, back_from(s)),
        }
    }
}

/// What backspace asks for: to keep the cursor on a character on leaving the command line,
/// or the typing notice in a chat.
pub open spec fn backspace_effects(s: AppView, now: u64, effects: Seq<Effect>) -> bool {
    if vim_normal(s) {
        effects.len() == 0
    } else if leaves_line(s) {
        effects.len() == 0
    } else {
        match s.state {
            AppState::Chatting(_) => typing_effects(erase_back(s, s.cursor_position as int), now, effects),
            _ => effects.len() == 0,
        }
    }
}

/// Where delete looks in a chat: the cursor, or the last byte where the cursor is at or past
/// the end; the character ending just after it goes.
pub open spec fn chat_delete_cursor(s: AppView) -> int {
    if s.cursor_position >= byte_len(s.input) {
        byte_len(s.input) - 1
    } else {
        s.cursor_position as int
    }
}

/// Where delete looks outside a chat and the emoji list.
pub open spec fn delete_end(s: AppView) -> int {
    if s.cursor_position < byte_len(s.input) {
        s.cursor_position + 1
    } else {
        byte_len(s.input) as int
    }
}

/// Delete does not fail: the position it looks at is a boundary.
pub open spec fn delete_ok(s: AppView) -> bool {
    &&& byte_len(s.input) <= usize::MAX
    &&& match s.state {
        AppState::Chatting(_) => s.input.len() > 0 ==> is_boundary(s.input, chat_delete_cursor(s) + 1),
        AppState::EmojiSelection(_) => s.cursor_position < usize::MAX && is_boundary(
            s.input,
            s.cursor_position + 1,
        ) && (char_before(s.input, s.cursor_position + 1) is Some ==> filter_ok(
            erased(s.input, s.cursor_position + 1),
            s.cursor_position as int,
            s.emoji_filter_start,
        )),
        _ => is_boundary(s.input, delete_end(s)),
    }
}

/// A chat after delete, before the typing notice.
pub open spec fn chat_deleted(s: AppView) -> AppView {
    if s.input.len() > 0 {
        erase_at(
            AppView { cursor_position: chat_delete_cursor(s) as usize, ..s },
            chat_delete_cursor(s) + 1,
        )
    } else {
        s
    }
}

/// The state after delete at time `now`.
pub open spec fn after_delete(s: AppView, now: u64) -> AppView {
    match s.state {
        AppState::Chatting(_) => after_typing(chat_deleted(s), now),
        AppState::EmojiSelection(ch) => if char_before(s.input, s.cursor_position + 1) is Some {
            AppView { emoji_index: 0, ..refiltered(erase_at(s, s.cursor_position + 1), ch) }
        } else {
            s
        },
        _ => erase_at(s, delete_end(s)),
    }
}

pub open spec fn delete_effects(s: AppView, now: u64, effects: Seq<Effect>) -> bool {
    match s.state {
        AppState::Chatting(_) => typing_effects(chat_deleted(s), now, effects),
        _ => effects.len() == 0,
    }
}

impl App {
    /// Takes the state out, leaving the home screen in its place.
    pub(crate) fn take_state(&mut self) -> (st: AppState)
        ensures
            st == old(self)@.state,
            final(self)@ == (AppView { state: AppState::Home, ..old(self)@ }),
    {
        let mut st = AppState::Home;
        std::mem::swap(&mut st, &mut self.state);
        assert(self@ =~= (AppView { state: AppState::Home, ..old(self)@ }));
        st
    }

    /// Recomputes the emoji filter after an edit in the emoji list of the conversation `ch`,
    /// and closes the list when nothing is left to filter by.
    fn refilter(&mut self, ch: Box<AnyChannel>)
        requires
            filter_ok(old(self)@.input, old(self)@.cursor_position as int, old(self)@.emoji_filter_start),
            byte_len(old(self)@.input) <= usize::MAX,
        ensures
            final(self)@ == refiltered(
                AppView { state: AppState::EmojiSelection(ch), ..old(self)@ },
                ch,
            ),
    {
        self.recompute_filter();
        if self.emoji_filter.as_str().is_empty() {
            self.state = AppState::Chatting(ch);
            self.emoji_filter_start = None;
            self.status_message = lit(
                "Chatting in channel. Press Enter to send message. Esc to return to channels",
            );
        } else {
            self.state = AppState::EmojiSelection(ch);
        }
        assert(self@ =~= refiltered(AppView { state: AppState::EmojiSelection(ch), ..old(self)@ }, ch));
    }

    /// Backspace in a chat.
    fn erase_in_chat(&mut self)
        requires
            is_boundary(old(self)@.input, old(self)@.cursor_position as int),
        ensures
            final(self)@ == erase_back(old(self)@, old(self)@.cursor_position as int),
    {
        let pos = self.cursor_position;
        if let Some(n) = self.remove_before(pos) {
            self.cursor_position = self.cursor_position - n;
        }
        assert(self@ =~= erase_back(old(self)@, old(self)@.cursor_position as int));
    }

    /// Backspace in the emoji list of the conversation `ch`.
    fn erase_in_emoji_list(&mut self, ch: Box<AnyChannel>)
        requires
            old(self)@.state == AppState::Home,
            byte_len(old(self)@.input) <= usize::MAX,
            is_boundary(old(self)@.input, old(self)@.cursor_position as int),
            char_before(old(self)@.input, old(self)@.cursor_position as int) is Some ==> filter_ok(
                erase_back(old(self)@, old(self)@.cursor_position as int).input,
                erase_back(old(self)@, old(self)@.cursor_position as int).cursor_position as int,
                old(self)@.emoji_filter_start,
            ),
        ensures
            ({
                let s = AppView { state: AppState::EmojiSelection(ch), ..old(self)@ };
                final(self)@ == if char_before(s.input, s.cursor_position as int) is Some {
                    AppView { selection_index: 0, ..refiltered(erase_back(s, s.cursor_position as int), ch) }
                } else {
                    s
                }
            }),
    {
        let pos = self.cursor_position;
        if let Some(n) = self.remove_before(pos) {
            self.cursor_position = self.cursor_position - n;
            self.refilter(ch);
            self.selection_index = 0;
        } else {
            self.state = AppState::EmojiSelection(ch);
        }
    }

    /// Backspace outside a chat and the emoji list.
    fn erase_elsewhere(&mut self)
        requires
            byte_len(old(self)@.input) <= usize::MAX,
            is_boundary(old(self)@.input, back_from(old(self)@)),
            char_before(old(self)@.input, back_from(old(self)@)) matches Some(c) ==> old(self)@.cursor_position
                >= char_len(c),
        ensures
            final(self)@ == erase_back(old(self)@, back_from(old(self)@)),
    {
        let len = self.input_len();
        let pos = if self.cursor_position <= len && self.cursor_position > 0 {
            self.cursor_position
        } else {
            len
        };
        let ghost c = char_before(self@.input, pos as int);
        if let Some(n) = self.remove_before(pos) {
            self.cursor_position = self.cursor_position - n;
        }
        assert(self@ =~= erase_back(old(self)@, back_from(old(self)@)));
    }

    /// Leaves the command or search line, bringing the saved input back.
    fn leave_line(&mut self)
        requires
            fixup_ok(restored(old(self)@)),
        ensures
            final(self)@ == settled(restored(old(self)@)),
    {
        self.mode = InputMode::Normal;
        let mut saved: Option<String> = None;
        std::mem::swap(&mut saved, &mut self.saved_input);
        self.input = match saved {
            Some(t) => t,
            None => String::new(),
        };
        assert(self@ =~= restored(old(self)@));
        self.vim_fixup()
    }

    /// Backspace at time `now` (in milliseconds).
    pub fn input_backspace(&mut self, now: u64) -> (r: Step)
        requires
            backspace_ok(old(self)@),
        ensures
            final(self)@ == after_backspace(old(self)@, now),
            r.keyword is None,
            backspace_effects(old(self)@, now, r.effects@),
    {
        let mut effects: Vec<Effect> = Vec::new();
        if self.vim_mode && self.mode == InputMode::Normal {
            if let Some(c) = self.input_char_before(self.cursor_position) {
                self.cursor_position = self.cursor_position - char_len_exec(c);
            }
            return Step { keyword: None, effects };
        }
        if self.vim_mode && (self.mode == InputMode::Command || self.mode == InputMode::Search)
            && self.input.as_str().is_empty() {
            self.leave_line();
            return Step { keyword: None, effects };
        }
        let st = self.take_state();
        match st {
            AppState::Chatting(ch) => {
                self.state = AppState::Chatting(ch);
                assert(self@ =~= old(self)@);
                self.erase_in_chat();
                self.handle_user_typing(now, &mut effects);
                assert(effects@.skip(0) =~= effects@);
            },
            AppState::EmojiSelection(ch) => {
                self.erase_in_emoji_list(ch);
            },
            other => {
                self.state = other;
                assert(self@ =~= old(self)@);
                self.erase_elsewhere();
            },
        }
        Step { keyword: None, effects }
    }
}

impl App {
    /// Delete in a chat.
    fn delete_in_chat(&mut self)
        requires
            byte_len(old(self)@.input) <= usize::MAX,
            old(self)@.input.len() > 0 ==> is_boundary(old(self)@.input, chat_delete_cursor(old(self)@) + 1),
        ensures
            final(self)@ == chat_deleted(old(self)@),
    {
        if !self.input.as_str().is_empty() {
            let len = self.input_len();
            proof {
                lemma_byte_len_nonempty(self@.input);
            }
            if self.cursor_position >= len {
                self.cursor_position = len.saturating_sub(1);
            }
            let pos = self.cursor_position.saturating_add(1);
            let _ = self.remove_before(pos);
        }
        assert(self@ =~= chat_deleted(old(self)@));
    }

    /// Delete in the emoji list of the conversation `ch`.
    fn delete_in_emoji_list(&mut self, ch: Box<AnyChannel>)
        requires
            old(self)@.state == AppState::Home,
            byte_len(old(self)@.input) <= usize::MAX,
            old(self)@.cursor_position < usize::MAX,
            is_boundary(old(self)@.input, old(self)@.cursor_position + 1),
            char_before(old(self)@.input, old(self)@.cursor_position + 1) is Some ==> filter_ok(
                erased(old(self)@.input, old(self)@.cursor_position + 1),
                old(self)@.cursor_position as int,
                old(self)@.emoji_filter_start,
            ),
        ensures
            ({
                let s = AppView { state: AppState::EmojiSelection(ch), ..old(self)@ };
                final(self)@ == if char_before(s.input, s.cursor_position + 1) is Some {
                    AppView { emoji_index: 0, ..refiltered(erase_at(s, s.cursor_position + 1), ch) }
                } else {
                    s
                }
            }),
    {
        let pos = self.cursor_position + 1;
        if let Some(_) = self.remove_before(pos) {
            self.refilter(ch);
            self.emoji_index = 0;
        } else {
            self.state = AppState::EmojiSelection(ch);
        }
    }

    /// Delete outside a chat and the emoji list.
    fn delete_elsewhere(&mut self)
        requires
            byte_len(old(self)@.input) <= usize::MAX,
            is_boundary(old(self)@.input, delete_end(old(self)@)),
        ensures
            final(self)@ == erase_at(old(self)@, delete_end(old(self)@)),
    {
        let len = self.input_len();
        let pos = if self.cursor_position < len {
            self.cursor_position + 1
        } else {
            len
        };
        let _ = self.remove_before(pos);
        assert(self@ =~= erase_at(old(self)@, delete_end(old(self)@)));
    }

    /// Delete at time `now` (in milliseconds).
    pub fn input_delete(&mut self, now: u64) -> (r: Step)
        requires
            delete_ok(old(self)@),
        ensures
            final(self)@ == after_delete(old(self)@, now),
            r.keyword is None,
            delete_effects(old(self)@, now, r.effects@),
    {
        let mut effects: Vec<Effect> = Vec::new();
        let st = self.take_state();
        match st {
            AppState::Chatting(ch) => {
                self.state = AppState::Chatting(ch);
                assert(self@ =~= old(self)@);
                self.delete_in_chat();
                self.handle_user_typing(now, &mut effects);
                assert(effects@.skip(0) =~= effects@);
            },
            AppState::EmojiSelection(ch) => {
                self.delete_in_emoji_list(ch);
            },
            other => {
                self.state = other;
                assert(self@ =~= old(self)@);
                self.delete_elsewhere();
            },
        }
        Step { keyword: None, effects }
    }
}

// ---------------------------------------------------------------------------
// Typing a character, and the emoji list
// ---------------------------------------------------------------------------

/// A `:` typed at the start of the text or after a space opens the emoji list.
pub open spec fn emoji_start(s: AppView) -> bool {
    s.cursor_position == 0 || char_before(s.input, s.cursor_position as int) == Some(' ')
}

/// Opening the emoji list does not fail: the cursor is at a boundary and the text can grow.
pub open spec fn select_emoji_ok(s: AppView) -> bool {
    match s.state {
        AppState::Chatting(_) | AppState::Editing(_, _, _) => insert_ok(s, ':'),
        _ => true,
    }
}

/// The state after the emoji list is asked for: in a chat (or while editing) a `:` is typed,
/// and at the start of a word the list opens, filtering from there.
pub open spec fn after_select_emoji(s: AppView) -> AppView {
    match s.state {
        AppState::Chatting(ch) | AppState::Editing(ch, _, _) => if emoji_start(s) {
            AppView {
                emoji_filter_start: Some(s.cursor_position),
                state: AppState::EmojiSelection(ch),
                status_message: emoji_status(),
                emoji_filter: Seq::empty(),
                selection_index: 0,
                ..with_char(s, ':')
            }
        } else {
            with_char(s, ':')
        },
        _ => s,
    }
}

/// A `:` asks for the emoji list, unless vim's normal or command mode reads it.
pub open spec fn colon_opens_list(s: AppView, c: char) -> bool {
    c == ':' && (!s.vim_mode || s.mode == InputMode::Insert)
}

/// Typing `c` does not fail.
pub open spec fn input_char_ok(s: AppView, c: char) -> bool {
    if colon_opens_list(s, c) {
        true
    } else if vim_normal(s) {
        vim_key_ok(s)
    } else {
        insert_ok(s, c)
    }
}

/// The state after typing `c` at time `now`.
pub open spec fn after_input_char(s: AppView, c: char, now: u64) -> AppView {
    if colon_opens_list(s, c) {
        s
    } else if vim_normal(s) {
        after_vim_key(s, c)
    } else {
        after_typing(after_insert(s, c), now)
    }
}

/// What typing asks for: the emoji list, nothing for a key of vim's normal mode, or the
/// typing notice.
pub open spec fn input_char_effects(s: AppView, c: char, now: u64, effects: Seq<Effect>) -> bool {
    if colon_opens_list(s, c) {
        sends_one(effects, AppAction::SelectEmoji)
    } else if vim_normal(s) {
        vim_key_effects(s, c, effects)
    } else {
        typing_effects(after_insert(s, c), now, effects)
    }
}

impl App {
    /// Opens the emoji list, or types a `:` where it does not open.
    pub fn select_emoji(&mut self)
        requires
            select_emoji_ok(old(self)@),
        ensures
            final(self)@ == after_select_emoji(old(self)@),
    {
        let in_chat = match &self.state {
            AppState::Chatting(_) | AppState::Editing(_, _, _) => true,
            _ => false,
        };
        if !in_chat {
            return;
        }
        let at_start = if self.cursor_position == 0 {
            true
        } else {
            match self.input_char_before(self.cursor_position) {
                Some(c) => c == ' ',
                None => false,
            }
        };
        let pos = self.cursor_position;
        self.insert_char_at_cursor(':');
        if at_start {
            let st = self.take_state();
            match st {
                AppState::Chatting(ch) | AppState::Editing(ch, _, _) => {
                    self.state = AppState::EmojiSelection(ch);
                },
                other => {
                    self.state = other;
                },
            }
            self.emoji_filter_start = Some(pos);
            self.status_message = lit("Type to filter emoji. Enter to select. Esc to cancel.");
            self.emoji_filter = String::new();
            self.selection_index = 0;
        }
        assert(self@ =~= after_select_emoji(old(self)@));
    }

    /// Typing `c` at time `now` (in milliseconds).
    pub fn input_char(&mut self, c: char, now: u64) -> (r: Step)
        requires
            input_char_ok(old(self)@, c),
        ensures
            final(self)@ == after_input_char(old(self)@, c, now),
            r.keyword is None,
            input_char_effects(old(self)@, c, now, r.effects@),
    {
        let mut effects: Vec<Effect> = Vec::new();
        if c == ':' && (!self.vim_mode || self.mode == InputMode::Insert) {
            effects.push(Effect::Send(AppAction::SelectEmoji));
            return Step { keyword: None, effects };
        }
        if self.vim_mode && self.mode == InputMode::Normal {
            return self.vim_normal_key(c);
        }
        self.insert_char_at_cursor(c);
        self.handle_user_typing(now, &mut effects);
        assert(effects@.skip(0) =~= effects@);
        Step { keyword: None, effects }
    }
}

} // verus!
