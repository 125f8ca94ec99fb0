use vstd::prelude::*;

use crate::api::{lit, same_message, Guild, Message};
use crate::app::{chat_status, App, AppView};
use crate::keys::{return_to, returns_to};
use crate::state::{AnyChannel, AppAction, AppState, Effect, InputMode, Window};
use crate::text::{chars_of, string_of};
use crate::textbuf::{byte_len, byte_len_exec, char_len, index_at, index_at_exec, is_boundary, remove_range};

verus! {

// ---------------------------------------------------------------------------
// Opening a chat
// ---------------------------------------------------------------------------

/// Where the `:filter` text ends when the filter started at `st`.
pub open spec fn emoji_text_end(s: AppView, st: usize) -> int {
    st + 1 + byte_len(s.emoji_filter)
}

/// Leaving the emoji list without a choice: the `:filter` text is taken out of the input
/// (where its ends are boundaries) and the filter is cleared.
pub open spec fn emoji_cancelled(s: AppView) -> AppView {
    let s1 = match s.emoji_filter_start {
        Some(st) => if is_boundary(s.input, st as int) && is_boundary(s.input, emoji_text_end(s, st)) {
            AppView {
                input: s.input.take(index_at(s.input, st as int)) + s.input.skip(
                    index_at(s.input, emoji_text_end(s, st)),
                ),
                cursor_position: st,
                ..s
            }
        } else {
            s
        },
        None => s,
    };
    AppView { emoji_filter: Seq::empty(), emoji_filter_start: None, selection_index: 0, ..s1 }
}

/// Opening a chat does not overflow.
pub open spec fn to_chat_ok(s: AppView) -> bool {
    (s.state is EmojiSelection && s.emoji_filter_start is Some) ==> emoji_text_end(s, s.emoji_filter_start->0)
        <= usize::MAX
}

/// The state after the chat with `ch` opens: coming from the emoji list, the filter text
/// goes; coming from editing, the input saved before the edit comes back; the search,
/// scroll, cursor, selection and typing notice start afresh.
pub open spec fn after_to_chat(s: AppView, ch: Box<AnyChannel>) -> AppView {
    let s1 = match s.state {
        AppState::EmojiSelection(_) => emoji_cancelled(s),
        AppState::Editing(_, _, _) => AppView {
            input: match s.saved_input {
                Some(t) => t,
                None => Seq::empty(),
            },
            saved_input: None,
            ..s
        },
        _ => s,
    };
    AppView {
        state: AppState::Chatting(ch),
        search_input: Seq::empty(),
        chat_scroll_offset: 0,
        cursor_position: 0,
        selection_index: 0,
        last_typing_sent: None,
        status_message: chat_status(),
        ..s1
    }
}

impl App {
    /// Takes the `:filter` text out of the input and clears the filter.
    fn cancel_emoji(&mut self)
        requires
            old(self)@.emoji_filter_start is Some ==> emoji_text_end(old(self)@, old(self)@.emoji_filter_start->0)
                <= usize::MAX,
        ensures
            final(self)@ == emoji_cancelled(old(self)@),
    {
        if let Some(st) = self.emoji_filter_start {
            let fv = chars_of(self.emoji_filter.as_str());
            let end = st + 1 + byte_len_exec(&fv);
            let mut v = chars_of(self.input.as_str());
            let a = index_at_exec(&v, st);
            let b = index_at_exec(&v, end);
            if a.is_some() && b.is_some() {
                let a = a.unwrap();
                let b = b.unwrap();
                proof {
                    if b < a {
                        crate::textbuf::lemma_offset_strict(v@, b as int, a as int);
                    }
                }
                remove_range(&mut v, a, b);
                self.input = string_of(&v);
                self.cursor_position = st;
            }
        }
        self.emoji_filter = String::new();
        self.emoji_filter_start = None;
        self.selection_index = 0;
        assert(self@ =~= emoji_cancelled(old(self)@));
    }

    /// Opens the chat with `ch`.
    pub fn transition_to_chat(&mut self, ch: Box<AnyChannel>)
        requires
            to_chat_ok(old(self)@),
        ensures
            final(self)@ == after_to_chat(old(self)@, ch),
    {
        let in_emoji = match &self.state {
            AppState::EmojiSelection(_) => true,
            _ => false,
        };
        let editing = match &self.state {
            AppState::Editing(_, _, _) => true,
            _ => false,
        };
        if in_emoji {
            self.cancel_emoji();
        }
        if editing {
            let mut saved: Option<String> = None;
            std::mem::swap(&mut saved, &mut self.saved_input);
            self.input = match saved {
                Some(t) => t,
                None => String::new(),
            };
        }
        self.state = AppState::Chatting(ch);
        self.search_input = String::new();
        self.chat_scroll_offset = 0;
        self.cursor_position = 0;
        self.selection_index = 0;
        self.last_typing_sent = None;
        self.status_message = lit(
            "Chatting in channel. Press Enter to send message, Esc to return to channels.",
        );
        assert(self@ =~= after_to_chat(old(self)@, ch));
    }
}

// ---------------------------------------------------------------------------
// Editing a message
// ---------------------------------------------------------------------------

pub open spec fn editing_status() -> Seq<char> {
    "Editing a message in channel. Press Enter to send message. Esc to return to channels"@
}

/// Where the cursor starts in the text being edited: at its start for `i` or `I`, after
/// its first character for `a`, else at its end.
pub open spec fn edit_cursor(content: Seq<char>, key: char) -> usize {
    if key == 'i' || key == 'I' {
        0
    } else if key == 'a' {
        if content.len() > 0 {
            char_len(content[0]) as usize
        } else {
            0
        }
    } else {
        byte_len(content) as usize
    }
}

/// The state after editing of `message` starts, with `content` as its text and `key` the
/// key that started it: the input is saved and replaced by the text, and vim goes to
/// insert mode with no pending keys.
pub open spec fn after_to_editing(s: AppView, ch: Box<AnyChannel>, message: Message, content: String, key: char) -> AppView {
    AppView {
        saved_input: Some(s.input),
        input: content@,
        mode: if s.vim_mode {
            InputMode::Insert
        } else {
            s.mode
        },
        vim_state: if s.vim_mode {
            match s.vim_state {
                Some(_) => Some((None, Seq::empty())),
                None => None,
            }
        } else {
            s.vim_state
        },
        cursor_position: edit_cursor(content@, key),
        selection_index: 0,
        state: AppState::Editing(ch, Box::new(message), content),
        status_message: editing_status(),
        ..s
    }
}

impl App {
    /// Starts editing `message` with `content` as its text, `key` being the key that
    /// started it.
    pub fn transition_to_editing(&mut self, ch: Box<AnyChannel>, message: Message, content: String, key: char)
        requires
            byte_len(content@) <= usize::MAX,
        ensures
            final(self)@ == after_to_editing(old(self)@, ch, message, content, key),
    {
        let mut input = content.clone();
        std::mem::swap(&mut input, &mut self.input);
        self.saved_input = Some(input);
        if self.vim_mode {
            self.mode = InputMode::Insert;
            if let Some(vs) = &mut self.vim_state {
                vs.operator = None;
                vs.pending_keys = String::new();
            }
        }
        let cv = chars_of(content.as_str());
        self.cursor_position = if key == 'i' || key == 'I' {
            0
        } else if key == 'a' {
            if cv.len() > 0 {
                crate::textbuf::char_len_exec(cv[0])
            } else {
                0
            }
        } else {
            byte_len_exec(&cv)
        };
        self.selection_index = 0;
        self.state = AppState::Editing(ch, Box::new(message), content);
        self.status_message = lit(
            "Editing a message in channel. Press Enter to send message. Esc to return to channels",
        );
        assert(self@ =~= after_to_editing(old(self)@, ch, message, content, key));
    }
}

// ---------------------------------------------------------------------------
// Leaving the loading and log screens
// ---------------------------------------------------------------------------

/// What ending the loading or log screen asks for: to go back to the screen it was opened
/// for; elsewhere nothing.
pub open spec fn end_screen_effects(s: AppView, effects: Seq<Effect>) -> bool {
    match s.state {
        AppState::Loading(w) | AppState::Logs(w) => effects.len() == 1 && (effects[0] matches Effect::Send(a)
            && returns_to(w, a)),
        _ => effects.len() == 0,
    }
}

impl App {
    /// Ends the loading or log screen.
    pub fn end_screen(&self) -> (effects: Vec<Effect>)
        ensures
            end_screen_effects(self@, effects@),
    {
        let mut effects: Vec<Effect> = Vec::new();
        match &self.state {
            AppState::Loading(w) | AppState::Logs(w) => {
                effects.push(Effect::Send(return_to(w)));
            },
            _ => {},
        }
        effects
    }
}

// ---------------------------------------------------------------------------
// What the outside work of a step comes back with
// ---------------------------------------------------------------------------

/// Where leaving a chat goes.
#[derive(Debug)]
pub enum LeaveTarget {
    /// The list of direct conversations.
    Dms,
    /// The guild list.
    Guilds,
    /// The channel list of the guild with this id, once the guild is loaded.
    Guild(String),
    /// Nowhere: the channel could not be looked up.
    Stay,
}

/// Where leaving a chat goes, given what the service says the channel is (`None` when it
/// could not be looked up): a direct conversation, or a guild channel of type 1 or 3, goes
/// back to the conversations; a guild channel goes back to its guild, or to the guild list
/// when it names none.
pub open spec fn leave_target_spec(fetched: Option<AnyChannel>, r: LeaveTarget) -> bool {
    match fetched {
        None => r is Stay,
        Some(AnyChannel::Direct(_)) => r is Dms,
        Some(AnyChannel::Guild(c)) => if c.channel_type == 1 || c.channel_type == 3 {
            r is Dms
        } else {
            match c.guild_id {
                Some(id) => r matches LeaveTarget::Guild(g) && g@ == id@,
                None => r is Guilds,
            }
        },
    }
}

pub fn leave_target(fetched: Option<AnyChannel>) -> (r: LeaveTarget)
    ensures
        leave_target_spec(fetched, r),
{
    match fetched {
        None => LeaveTarget::Stay,
        Some(AnyChannel::Direct(_)) => LeaveTarget::Dms,
        Some(AnyChannel::Guild(c)) => {
            if c.channel_type == 1 || c.channel_type == 3 {
                LeaveTarget::Dms
            } else {
                match c.guild_id {
                    Some(id) => LeaveTarget::Guild(id),
                    None => LeaveTarget::Guilds,
                }
            }
        },
    }
}

/// The screen to go to once the guild of a left chat is looked up: its channel list, or
/// the guild list when it could not be loaded.
pub fn after_guild_lookup(guild: Option<Guild>) -> (a: AppAction)
    ensures
        match guild {
            Some(g) => a == AppAction::TransitionToChannels(Box::new(g)),
            None => a is TransitionToGuilds,
        },
{
    match guild {
        Some(g) => AppAction::TransitionToChannels(Box::new(g)),
        None => AppAction::TransitionToGuilds,
    }
}

pub open spec fn loading_channels_for(name: Seq<char>) -> Seq<char> {
    "Loading channels for "@ + name + "..."@
}

pub open spec fn chat_error_status(error: Seq<char>) -> Seq<char> {
    "Error loading chat: "@ + error
}

impl App {
    /// The guild picked from the list is loaded: it becomes the selected guild, and its
    /// channels are loading.
    pub fn guild_opened(&mut self, guild: Guild, name: &str)
        ensures
            final(self)@ == (AppView {
                selected_guild: Some(guild),
                status_message: loading_channels_for(name@),
                ..old(self)@
            }),
    {
        self.selected_guild = Some(guild);
        let mut status = lit("Loading channels for ");
        crate::text::push_all(&mut status, name);
        crate::text::push_all(&mut status, "...");
        self.status_message = status;
        assert(self@ =~= (AppView {
            selected_guild: Some(guild),
            status_message: loading_channels_for(name@),
            ..old(self)@
        }));
    }

    /// The messages of a chat could not be loaded.
    pub fn chat_load_failed(&mut self, error: &str)
        ensures
            final(self)@ == (AppView { status_message: chat_error_status(error@), ..old(self)@ }),
    {
        let mut status = lit("Error loading chat: ");
        crate::text::push_all(&mut status, error);
        self.status_message = status;
        assert(self@ =~= (AppView { status_message: chat_error_status(error@), ..old(self)@ }));
    }
}

/// The messages with the edited one, as the service returned it, in place of those with
/// its id.
pub fn replace_edited(ms: Vec<Message>, edited: Message) -> (r: Vec<Message>)
    ensures
        r@.len() == ms@.len(),
        forall|i: int| 0 <= i < ms@.len() ==> if ms@[i].id@ == edited.id@ {
            same_message(#[trigger] r@[i], edited)
        } else {
            r@[i] == ms@[i]
        },
{
    let mut out = ms;
    let mut i: usize = 0;
    while i < out.len()
        invariant
            i <= out.len(),
            out@.len() == ms@.len(),
            forall|j: int| 0 <= j < i ==> if ms@[j].id@ == edited.id@ {
                same_message(#[trigger] out@[j], edited)
            } else {
                out@[j] == ms@[j]
            },
            forall|j: int| i <= j < out@.len() ==> #[trigger] out@[j] == ms@[j],
        decreases out.len() - i,
    {
        if crate::text::str_eq(out[i].id.as_str(), edited.id.as_str()) {
            out.set(i, edited.copy());
        }
        i += 1;
    }
    out
}

} // verus!
