use vstd::prelude::*;

use crate::app::{
    after_api_delete, after_clear_logs, after_members_chunk, after_message_delete,
    after_message_update, after_new_log, after_presence, after_tick, after_typing_start,
    after_update_channels, after_update_dms, after_update_messages, acks_messages, chat_status,
    dms_status, guilds_loaded_status, guilds_status, home_status, is_logs, loading_messages_status,
    newest_index, opt_view, shows_channel, to_list, to_loading, to_logs, App, AppView,
};
use crate::editing::{after_paste, after_typing, paste_ok, typing_effects};
use crate::incoming::{after_message_create, arrives_in_chat, message_create_ok, notice_fits, notifies};
use crate::keys::{
    after_backspace, after_delete, after_escape, after_input_char, after_select_emoji,
    backspace_effects, backspace_ok, delete_effects, delete_ok, escape_effects, escape_ok,
    input_char_effects, input_char_ok, select_emoji_ok,
};
use crate::navigate::{after_move, emoji_total, move_ok};
use crate::screens::{after_to_chat, after_to_editing, end_screen_effects, to_chat_ok};
use crate::state::{AppAction, AppState, Effect, KeywordAction, Step};
use crate::submit::{after_submit, submit_ok, submit_outcome};
use crate::textbuf::byte_len;
use crate::vim::{after_vim_key, vim_key_ok};

verus! {

/// Handling `a` does not fail: the conditions of the handler that it goes to hold.
pub open spec fn action_ok(s: AppView, a: AppAction) -> bool {
    match a {
        AppAction::InputChar(c) => input_char_ok(s, c),
        AppAction::InputBackspace => backspace_ok(s),
        AppAction::InputDelete => delete_ok(s),
        AppAction::InputEscape => escape_ok(s),
        AppAction::InputSubmit => submit_ok(s),
        AppAction::SelectNext => s.emoji_map.len() + s.custom_emojis.len() <= usize::MAX && move_ok(
            s,
            true,
            emoji_total(s),
        ),
        AppAction::SelectPrevious => s.emoji_map.len() + s.custom_emojis.len() <= usize::MAX && move_ok(
            s,
            false,
            emoji_total(s),
        ),
        AppAction::GatewayMessageCreate(m) => message_create_ok(s, m),
        AppAction::TransitionToChat(_) => to_chat_ok(s),
        AppAction::TransitionToEditing(_, _, content, _) => byte_len(content@) <= usize::MAX,
        AppAction::SelectEmoji => select_emoji_ok(s),
        AppAction::SelectLeft | AppAction::SelectRight => vim_key_ok(s),
        AppAction::Paste(t) => paste_ok(s, t@),
        AppAction::NewLogReceived(_) => !(is_logs(s.state) && s.selection_index == usize::MAX),
        _ => true,
    }
}

/// The step neither stops nor skips anything and asks for nothing outside.
pub open spec fn quiet(r: Step) -> bool {
    r.keyword is None && r.effects@.len() == 0
}

/// What handling a key does to the state `s`, giving `t` and the step `r`.
pub open spec fn key_stepped(s: AppView, a: AppAction, now: u64, t: AppView, r: Step) -> bool {
    match a {
        AppAction::SigInt => t == s && (r.keyword matches Some(KeywordAction::Break)) && r.effects@.len() == 0,
        AppAction::InputChar(c) => t == after_input_char(s, c, now) && r.keyword is None && input_char_effects(
            s,
            c,
            now,
            r.effects@,
        ),
        AppAction::InputBackspace => t == after_backspace(s, now) && r.keyword is None && backspace_effects(
            s,
            now,
            r.effects@,
        ),
        AppAction::InputDelete => t == after_delete(s, now) && r.keyword is None && delete_effects(s, now, r.effects@),
        AppAction::InputEscape => t == after_escape(s) && r.keyword is None && escape_effects(s, r.effects@),
        AppAction::InputSubmit => t == after_submit(s) && submit_outcome(s, r.keyword, r.effects@),
        AppAction::SelectNext => t == after_move(s, true, emoji_total(s)) && quiet(r),
        AppAction::SelectPrevious => t == after_move(s, false, emoji_total(s)) && quiet(r),
        AppAction::SelectLeft => t == after_vim_key(s, 'h') && quiet(r),
        AppAction::SelectRight => t == after_vim_key(s, 'l') && quiet(r),
        AppAction::SelectEmoji => t == after_select_emoji(s) && quiet(r),
        AppAction::Paste(text) => t == after_typing(after_paste(s, text@), now) && r.keyword is None
            && typing_effects(after_paste(s, text@), now, r.effects@),
        _ => true,
    }
}

/// What an update from the service does to the state `s`, giving `t` and the step `r`.
pub open spec fn update_stepped(s: AppView, a: AppAction, now: u64, t: AppView, r: Step) -> bool {
    match a {
        AppAction::ApiDeleteMessage(channel_id, message_id) => t == after_api_delete(s, message_id@)
            && r.keyword is None && r.effects@ == seq![
            Effect::DeleteMessage { channel_id: channel_id, message_id: message_id },
        ],
        AppAction::ApiEditMessage(channel_id, message_id, content) => t == s && r.keyword is None
            && r.effects@ == seq![
            Effect::EditMessage { channel_id: channel_id, message_id: message_id, content: content },
        ],
        AppAction::ApiUpdateMessages(ch, ms) => t == after_update_messages(s, ch@, ms@) && r.keyword is None
            && if !shows_channel(s.state, ch@) {
            r.effects@.len() == 0
        } else if acks_messages(s, ch@, ms@) {
            r.effects@ == seq![
                Effect::AckMessage { channel_id: ch, message_id: ms@[newest_index(ms@)].id },
                Effect::CloseNotifications { channel_id: ch },
            ]
        } else {
            r.effects@ == seq![Effect::CloseNotifications { channel_id: ch }]
        },
        AppAction::ApiUpdateChannel(cs) => t == after_update_channels(s, cs@) && quiet(r),
        AppAction::ApiUpdateEmojis(es) => t == (AppView { custom_emojis: es@, ..s }) && quiet(r),
        AppAction::ApiUpdateGuilds(gs) => t == (AppView { guilds: gs@, status_message: guilds_loaded_status(), ..s })
            && quiet(r),
        AppAction::ApiUpdateDMs(ds) => t == after_update_dms(s, ds@) && quiet(r),
        AppAction::ApiUpdateContext(c) => t == (AppView { context: c, ..s }) && quiet(r),
        AppAction::ApiUpdateCurrentUser(u) => t == (AppView { current_user: Some(u), ..s }) && quiet(r),
        AppAction::GatewayMessageCreate(m) => t == after_message_create(s, m) && r.keyword is None && if arrives_in_chat(
            s,
            m,
        ) {
            r.effects@ == seq![Effect::AckMessage { channel_id: m.channel_id, message_id: m.id }]
        } else if notifies(s, m) {
            r.effects@.len() == 1 && (r.effects@[0] matches Effect::Notify(n) && notice_fits(n, s, m))
        } else {
            r.effects@.len() == 0
        },
        AppAction::GatewayMessageUpdate(p) => t == after_message_update(s, p) && quiet(r),
        AppAction::GatewayMessageDelete(id, _) => t == after_message_delete(s, id@) && quiet(r),
        AppAction::GatewayTypingStart(ch, user, name) => t == after_typing_start(s, ch@, user@, opt_view(name), now)
            && quiet(r),
        AppAction::GatewayGuildMembersChunk(_, members, _, count) => t == after_members_chunk(s, members@, count@)
            && quiet(r),
        AppAction::GatewayReadySupplemental(statuses, texts) => t == (AppView {
            user_statuses: s.user_statuses.union_prefer_right(statuses@),
            user_status_texts: s.user_status_texts.union_prefer_right(texts@),
            ..s
        }) && quiet(r),
        AppAction::GatewayPresenceUpdate(p) => t == after_presence(s, p) && quiet(r),
        AppAction::DesktopNotification(summary, body, channel_id) => t == s && r.keyword is None && r.effects@
            == seq![Effect::ShowNotification { summary: summary, body: body, channel_id: channel_id }],
        AppAction::Tick => t == after_tick(s, now) && (r.keyword matches Some(KeywordAction::Continue))
            && r.effects@.len() == 0,
        AppAction::NewLogReceived(log) => t == after_new_log(s, log) && quiet(r),
        AppAction::ClearLogs => t == after_clear_logs(s) && quiet(r),
        _ => true,
    }
}

/// What a change of screen does to the state `s`, giving `t` and the step `r`.
pub open spec fn screen_stepped(s: AppView, a: AppAction, t: AppView, r: Step) -> bool {
    match a {
        AppAction::TransitionToChat(ch) => t == after_to_chat(s, ch) && quiet(r),
        AppAction::TransitionToEditing(ch, m, content, key) => t == after_to_editing(s, ch, m, content, key) && quiet(r),
        AppAction::TransitionToChannels(g) => t == to_list(s, AppState::SelectingChannel(g), guilds_status()) && quiet(r),
        AppAction::TransitionToGuilds => t == to_list(s, AppState::SelectingGuild, guilds_status()) && quiet(r),
        AppAction::TransitionToDM => t == to_list(s, AppState::SelectingDM, dms_status()) && quiet(r),
        AppAction::TransitionToHome => t == to_list(s, AppState::Home, home_status()) && quiet(r),
        AppAction::TransitionToLoading(w) => t == to_loading(s, w) && quiet(r),
        AppAction::TransitionToLogs => t == to_logs(s) && quiet(r),
        AppAction::TransitionToLoadingMessages => t == (AppView {
            is_loading: true,
            status_message: loading_messages_status(),
            ..s
        }) && quiet(r),
        AppAction::EndLoadingMessages => t == (AppView { is_loading: false, status_message: chat_status(), ..s })
            && quiet(r),
        AppAction::EndLoading | AppAction::EndLogs => t == s && r.keyword is None && end_screen_effects(s, r.effects@),
        _ => true,
    }
}

/// What handling `a` at time `now` (in milliseconds) does: the state `s` becomes `t`, and
/// the step `r` says whether the main loop goes on and what is to be done outside.
pub open spec fn stepped(s: AppView, a: AppAction, now: u64, t: AppView, r: Step) -> bool {
    key_stepped(s, a, now, t, r) && update_stepped(s, a, now, t, r) && screen_stepped(s, a, t, r)
}

impl App {
    #[verifier::rlimit(60)]
    fn handle_key(&mut self, action: AppAction, now: u64) -> (r: Step)
        requires
            action_ok(old(self)@, action),
            action is SigInt || action is InputChar || action is InputBackspace || action is InputDelete
                || action is InputEscape || action is InputSubmit || action is SelectNext
                || action is SelectPrevious || action is SelectLeft || action is SelectRight
                || action is SelectEmoji || action is Paste,
        ensures
            stepped(old(self)@, action, now, final(self)@, r),
    {
        match action {
            AppAction::SigInt => Step { keyword: Some(KeywordAction::Break), effects: Vec::new() },
            AppAction::InputChar(c) => self.input_char(c, now),
            AppAction::InputBackspace => self.input_backspace(now),
            AppAction::InputDelete => self.input_delete(now),
            AppAction::InputEscape => self.input_escape(),
            AppAction::InputSubmit => self.input_submit(),
            AppAction::SelectNext => {
                let total = self.emoji_total();
                self.move_selection(true, total);
                Step { keyword: None, effects: Vec::new() }
            },
            AppAction::SelectPrevious => {
                let total = self.emoji_total();
                self.move_selection(false, total);
                Step { keyword: None, effects: Vec::new() }
            },
            AppAction::SelectLeft => self.vim_normal_key('h'),
            AppAction::SelectRight => self.vim_normal_key('l'),
            AppAction::SelectEmoji => {
                self.select_emoji();
                Step { keyword: None, effects: Vec::new() }
            },
            AppAction::Paste(text) => {
                self.paste(text);
                let mut effects: Vec<Effect> = Vec::new();
                self.handle_user_typing(now, &mut effects);
                assert(effects@.skip(0) =~= effects@);
                Step { keyword: None, effects }
            },
            _ => Step { keyword: None, effects: Vec::new() },
        }
    }

    fn handle_update(&mut self, action: AppAction, now: u64) -> (r: Step)
        requires
            action_ok(old(self)@, action),
            !(action is SigInt || action is InputChar || action is InputBackspace || action is InputDelete
                || action is InputEscape || action is InputSubmit || action is SelectNext
                || action is SelectPrevious || action is SelectLeft || action is SelectRight
                || action is SelectEmoji || action is Paste),
            action is ApiDeleteMessage || action is ApiEditMessage || action is ApiUpdateMessages
                || action is ApiUpdateChannel || action is ApiUpdateEmojis || action is ApiUpdateGuilds
                || action is ApiUpdateDMs || action is ApiUpdateContext || action is ApiUpdateCurrentUser
                || action is GatewayMessageCreate || action is GatewayMessageUpdate
                || action is GatewayMessageDelete || action is GatewayTypingStart
                || action is GatewayGuildMembersChunk || action is GatewayReadySupplemental
                || action is GatewayPresenceUpdate || action is DesktopNotification || action is Tick
                || action is NewLogReceived || action is ClearLogs,
        ensures
            stepped(old(self)@, action, now, final(self)@, r),
    {
        let none = Vec::new();
        match action {
            AppAction::ApiDeleteMessage(channel_id, message_id) => {
                let effects = self.api_delete_message(channel_id, message_id);
                Step { keyword: None, effects }
            },
            AppAction::ApiEditMessage(channel_id, message_id, content) => {
                let effects = self.api_edit_message(channel_id, message_id, content);
                Step { keyword: None, effects }
            },
            AppAction::ApiUpdateMessages(ch, ms) => {
                let effects = self.api_update_messages(ch, ms);
                Step { keyword: None, effects }
            },
            AppAction::ApiUpdateChannel(cs) => {
                self.api_update_channel(cs);
                Step { keyword: None, effects: none }
            },
            AppAction::ApiUpdateEmojis(es) => {
                self.api_update_emojis(es);
                Step { keyword: None, effects: none }
            },
            AppAction::ApiUpdateGuilds(gs) => {
                self.api_update_guilds(gs);
                Step { keyword: None, effects: none }
            },
            AppAction::ApiUpdateDMs(ds) => {
                self.api_update_dms(ds);
                Step { keyword: None, effects: none }
            },
            AppAction::ApiUpdateContext(c) => {
                self.api_update_context(c);
                Step { keyword: None, effects: none }
            },
            AppAction::ApiUpdateCurrentUser(u) => {
                self.api_update_current_user(u);
                Step { keyword: None, effects: none }
            },
            AppAction::GatewayMessageCreate(m) => {
                let effects = self.gateway_message_create(m);
                Step { keyword: None, effects }
            },
            AppAction::GatewayMessageUpdate(p) => {
                self.gateway_message_update(p);
                Step { keyword: None, effects: none }
            },
            AppAction::GatewayMessageDelete(id, _) => {
                self.gateway_message_delete(id);
                Step { keyword: None, effects: none }
            },
            AppAction::GatewayTypingStart(ch, user, name) => {
                self.typing_start(ch, user, name, now);
                Step { keyword: None, effects: none }
            },
            AppAction::GatewayGuildMembersChunk(_, members, _, count) => {
                self.guild_members_chunk(members, count);
                Step { keyword: None, effects: none }
            },
            AppAction::GatewayReadySupplemental(statuses, texts) => {
                self.ready_supplemental(statuses, texts);
                Step { keyword: None, effects: none }
            },
            AppAction::GatewayPresenceUpdate(p) => {
                self.presence_update(p);
                Step { keyword: None, effects: none }
            },
            AppAction::DesktopNotification(summary, body, channel_id) => {
                let mut effects: Vec<Effect> = Vec::new();
                effects.push(Effect::ShowNotification { summary, body, channel_id });
                Step { keyword: None, effects }
            },
            AppAction::Tick => {
                self.tick(now);
                Step { keyword: Some(KeywordAction::Continue), effects: none }
            },
            AppAction::NewLogReceived(log) => {
                self.new_log_received(log);
                Step { keyword: None, effects: none }
            },
            AppAction::ClearLogs => {
                self.clear_logs();
                Step { keyword: None, effects: none }
            },
            _ => Step { keyword: None, effects: none },
        }
    }

    #[verifier::rlimit(40)]
    fn handle_screen(&mut self, action: AppAction) -> (r: Step)
        requires
            action_ok(old(self)@, action),
            action is TransitionToChat || action is TransitionToEditing || action is TransitionToChannels
                || action is TransitionToGuilds || action is TransitionToDM || action is TransitionToHome
                || action is TransitionToLoading || action is TransitionToLogs
                || action is TransitionToLoadingMessages || action is EndLoadingMessages
                || action is EndLoading || action is EndLogs,
        ensures
            stepped(old(self)@, action, 0, final(self)@, r),
            forall|now: u64| stepped(old(self)@, action, now, final(self)@, r),
    {
        let none = Vec::new();
        match action {
            AppAction::TransitionToChat(ch) => {
                self.transition_to_chat(ch);
                Step { keyword: None, effects: none }
            },
            AppAction::TransitionToEditing(ch, m, content, key) => {
                self.transition_to_editing(ch, m, content, key);
                Step { keyword: None, effects: none }
            },
            AppAction::TransitionToChannels(g) => {
                self.transition_to_channels(g);
                Step { keyword: None, effects: none }
            },
            AppAction::TransitionToGuilds => {
                self.transition_to_guilds();
                Step { keyword: None, effects: none }
            },
            AppAction::TransitionToDM => {
                self.transition_to_dm();
                Step { keyword: None, effects: none }
            },
            AppAction::TransitionToHome => {
                self.transition_to_home();
                Step { keyword: None, effects: none }
            },
            AppAction::TransitionToLoading(w) => {
                self.transition_to_loading(w);
                Step { keyword: None, effects: none }
            },
            AppAction::TransitionToLogs => {
                self.transition_to_logs();
                Step { keyword: None, effects: none }
            },
            AppAction::TransitionToLoadingMessages => {
                self.transition_to_loading_messages();
                Step { keyword: None, effects: none }
            },
            AppAction::EndLoadingMessages => {
                self.end_loading_messages();
                Step { keyword: None, effects: none }
            },
            AppAction::EndLoading | AppAction::EndLogs => {
                let effects = self.end_screen();
                Step { keyword: None, effects }
            },
            _ => Step { keyword: None, effects: none },
        }
    }

}

/// Handles one action at time `now` (in milliseconds since a fixed start): changes the
/// state as the action asks and says whether the main loop goes on, stops or skips
/// drawing, and what is to be done outside.
pub fn handle_keys_events(state: &mut App, action: AppAction, now: u64) -> (r: Step)
    requires
        action_ok(old(state)@, action),
    ensures
        stepped(old(state)@, action, now, final(state)@, r),
{
    match &action {
        AppAction::SigInt | AppAction::InputChar(_) | AppAction::InputBackspace
        | AppAction::InputDelete | AppAction::InputEscape | AppAction::InputSubmit
        | AppAction::SelectNext | AppAction::SelectPrevious | AppAction::SelectLeft
        | AppAction::SelectRight | AppAction::SelectEmoji | AppAction::Paste(_) => {
            return state.handle_key(action, now);
        },
        AppAction::TransitionToChat(_) | AppAction::TransitionToEditing(_, _, _, _)
        | AppAction::TransitionToChannels(_) | AppAction::TransitionToGuilds
        | AppAction::TransitionToDM | AppAction::TransitionToHome
        | AppAction::TransitionToLoading(_) | AppAction::TransitionToLogs
        | AppAction::TransitionToLoadingMessages | AppAction::EndLoadingMessages
        | AppAction::EndLoading | AppAction::EndLogs => {
            return state.handle_screen(action);
        },
        _ => {},
    }
    state.handle_update(action, now)
}

// ---------------------------------------------------------------------------
// Keys
// ---------------------------------------------------------------------------

/// A key pressed, as the terminal reports it.
#[derive(Debug, Clone, Copy, PartialEq, Eq, Structural)]
pub enum Key {
    Char(char),
    Esc,
    Enter,
    Backspace,
    Delete,
    Up,
    Down,
    Left,
    Right,
    Other,
}

/// What a key press asks for: Ctrl+C stops, the arrows move, the editing keys edit, and a
/// character is typed.
pub open spec fn key_action_spec(key: Key, ctrl: bool) -> Option<AppAction> {
    if key == Key::Char('c') && ctrl {
        Some(AppAction::SigInt)
    } else {
        match key {
            Key::Esc => Some(AppAction::InputEscape),
            Key::Enter => Some(AppAction::InputSubmit),
            Key::Backspace => Some(AppAction::InputBackspace),
            Key::Delete => Some(AppAction::InputDelete),
            Key::Up => Some(AppAction::SelectPrevious),
            Key::Down => Some(AppAction::SelectNext),
            Key::Left => Some(AppAction::SelectLeft),
            Key::Right => Some(AppAction::SelectRight),
            Key::Char(c) => Some(AppAction::InputChar(c)),
            Key::Other => None,
        }
    }
}

pub fn key_action(key: Key, ctrl: bool) -> (r: Option<AppAction>)
    ensures
        r == key_action_spec(key, ctrl),
{
    if key == Key::Char('c') && ctrl {
        return Some(AppAction::SigInt);
    }
    match key {
        Key::Esc => Some(AppAction::InputEscape),
        Key::Enter => Some(AppAction::InputSubmit),
        Key::Backspace => Some(AppAction::InputBackspace),
        Key::Delete => Some(AppAction::InputDelete),
        Key::Up => Some(AppAction::SelectPrevious),
        Key::Down => Some(AppAction::SelectNext),
        Key::Left => Some(AppAction::SelectLeft),
        Key::Right => Some(AppAction::SelectRight),
        Key::Char(c) => Some(AppAction::InputChar(c)),
        Key::Other => None,
    }
}

} // verus!
