use vstd::prelude::*;

use crate::api::{lit, DM, Emoji, Guild, GuildMember, Message, PartialGuild, User};
use crate::collections::{fresh_since, KeyMap, StrSet, TypingUsers};
use crate::num::{parse_u64, parse_u64_spec, parse_usize, parse_usize_spec, seq_lt, str_lt};
use crate::text::{chars_of, seq_eq, str_eq};
use crate::state::{AppAction, AppState, Channel, Effect, InputMode, KeywordAction, PermissionContext, Step, VimState, Window};

verus! {

/// The state of the client that its decisions read and change.
#[derive(Debug)]
pub struct App {
    pub state: AppState,
    pub guilds: Vec<PartialGuild>,
    pub selected_guild: Option<Guild>,
    pub guild_members: Vec<GuildMember>,
    pub channels: Vec<Channel>,
    pub messages: Vec<Message>,
    pub custom_emojis: Vec<Emoji>,
    pub dms: Vec<DM>,
    pub input: String,
    pub saved_input: Option<String>,
    pub search_input: String,
    pub selection_index: usize,
    pub status_message: String,
    pub terminal_height: usize,
    pub terminal_width: usize,
    /// Unicode emojis: (name, emoji).
    pub emoji_map: Vec<(String, String)>,
    pub emoji_filter: String,
    pub emoji_index: usize,
    /// Byte position where the emoji filter started (position of the ':').
    pub emoji_filter_start: Option<usize>,
    pub chat_scroll_offset: usize,
    pub tick_count: usize,
    pub context: Option<PermissionContext>,
    pub mode: InputMode,
    /// Byte position of the cursor in `input`.
    pub cursor_position: usize,
    pub vim_mode: bool,
    pub vim_state: Option<VimState>,
    pub current_user: Option<User>,
    /// Channel id to the id of the newest message seen there.
    pub last_message_ids: KeyMap<String>,
    pub discreet_notifs: bool,
    pub deleted_message_ids: StrSet,
    /// When (in milliseconds) the service was last told that the user is typing.
    pub last_typing_sent: Option<u64>,
    pub typing_users: TypingUsers,
    /// User id to username.
    pub user_names: KeyMap<String>,
    /// User id to status (online, idle, dnd, ...).
    pub user_statuses: KeyMap<String>,
    /// User id to custom status text.
    pub user_status_texts: KeyMap<String>,
    pub silent_typing: bool,
    pub is_loading: bool,
    pub notifs_display_username: bool,
    pub display_username: bool,
    pub is_invisible_dnd: bool,
    pub logs: Vec<String>,
}

/// The mathematical model of `App`.
#[verifier::ext_equal]
pub struct AppView {
    pub state: AppState,
    pub guilds: Seq<PartialGuild>,
    pub selected_guild: Option<Guild>,
    pub guild_members: Seq<GuildMember>,
    pub channels: Seq<Channel>,
    pub messages: Seq<Message>,
    pub custom_emojis: Seq<Emoji>,
    pub dms: Seq<DM>,
    pub input: Seq<char>,
    pub saved_input: Option<Seq<char>>,
    pub search_input: Seq<char>,
    pub selection_index: usize,
    pub status_message: Seq<char>,
    pub terminal_height: usize,
    pub terminal_width: usize,
    pub emoji_map: Seq<(String, String)>,
    pub emoji_filter: Seq<char>,
    pub emoji_index: usize,
    pub emoji_filter_start: Option<usize>,
    pub chat_scroll_offset: usize,
    pub tick_count: usize,
    pub context: Option<PermissionContext>,
    pub mode: InputMode,
    pub cursor_position: usize,
    pub vim_mode: bool,
    pub vim_state: Option<(Option<char>, Seq<char>)>,
    pub current_user: Option<User>,
    pub last_message_ids: Map<Seq<char>, Seq<char>>,
    pub discreet_notifs: bool,
    pub deleted_message_ids: Set<Seq<char>>,
    pub last_typing_sent: Option<u64>,
    pub typing_users: Map<(Seq<char>, Seq<char>), u64>,
    pub user_names: Map<Seq<char>, Seq<char>>,
    pub user_statuses: Map<Seq<char>, Seq<char>>,
    pub user_status_texts: Map<Seq<char>, Seq<char>>,
    pub silent_typing: bool,
    pub is_loading: bool,
    pub notifs_display_username: bool,
    pub display_username: bool,
    pub is_invisible_dnd: bool,
    pub logs: Seq<String>,
}

pub open spec fn opt_view(s: Option<String>) -> Option<Seq<char>> {
    match s {
        Some(t) => Some(t@),
        None => None,
    }
}

pub open spec fn vim_view(v: Option<VimState>) -> Option<(Option<char>, Seq<char>)> {
    match v {
        Some(s) => Some((s.operator, s.pending_keys@)),
        None => None,
    }
}

impl View for App {
    type V = AppView;

    open spec fn view(&self) -> AppView {
        AppView {
            state: self.state,
            guilds: self.guilds@,
            selected_guild: self.selected_guild,
            guild_members: self.guild_members@,
            channels: self.channels@,
            messages: self.messages@,
            custom_emojis: self.custom_emojis@,
            dms: self.dms@,
            input: self.input@,
            saved_input: opt_view(self.saved_input),
            search_input: self.search_input@,
            selection_index: self.selection_index,
            status_message: self.status_message@,
            terminal_height: self.terminal_height,
            terminal_width: self.terminal_width,
            emoji_map: self.emoji_map@,
            emoji_filter: self.emoji_filter@,
            emoji_index: self.emoji_index,
            emoji_filter_start: self.emoji_filter_start,
            chat_scroll_offset: self.chat_scroll_offset,
            tick_count: self.tick_count,
            context: self.context,
            mode: self.mode,
            cursor_position: self.cursor_position,
            vim_mode: self.vim_mode,
            vim_state: vim_view(self.vim_state),
            current_user: self.current_user,
            last_message_ids: self.last_message_ids@,
            discreet_notifs: self.discreet_notifs,
            deleted_message_ids: self.deleted_message_ids@,
            last_typing_sent: self.last_typing_sent,
            typing_users: self.typing_users@,
            user_names: self.user_names@,
            user_statuses: self.user_statuses@,
            user_status_texts: self.user_status_texts@,
            silent_typing: self.silent_typing,
            is_loading: self.is_loading,
            notifs_display_username: self.notifs_display_username,
            display_username: self.display_username,
            is_invisible_dnd: self.is_invisible_dnd,
            logs: self.logs@,
        }
    }
}

// ---------------------------------------------------------------------------
// Status lines
// ---------------------------------------------------------------------------

pub open spec fn home_status() -> Seq<char> {
    "Browse either DMs or Servers. Use arrows to navigate, Enter to select & Esc to quit"@
}

pub open spec fn guilds_status() -> Seq<char> {
    "Select a server. Use arrows to navigate, Enter to select & Esc to quit"@
}

pub open spec fn guilds_loaded_status() -> Seq<char> {
    "Select a server. Use arrows to navigate, Enter to select & Esc to quit."@
}

pub open spec fn dms_status() -> Seq<char> {
    "Select a DM. Use arrows to navigate, Enter to select & Esc to quit"@
}

pub open spec fn chat_status() -> Seq<char> {
    "Chatting in channel. Press Enter to send message, Esc to return to channels."@
}

pub open spec fn loading_status() -> Seq<char> {
    "Loading..."@
}

pub open spec fn logs_status() -> Seq<char> {
    "Reading Logs"@
}

pub open spec fn loading_messages_status() -> Seq<char> {
    "Loading Messages..."@
}

// ---------------------------------------------------------------------------
// Construction
// ---------------------------------------------------------------------------

/// The settings that the client starts with.
pub struct Setup {
    pub emoji_map: Vec<(String, String)>,
    pub vim_mode: bool,
    pub vim_state: Option<VimState>,
    pub discreet_notifs: bool,
    pub notifs_display_username: bool,
    pub silent_typing: bool,
    pub display_username: bool,
}

/// The state of a client that has just started: loading the home screen, with nothing
/// loaded, in normal mode, with the given settings and status line.
pub open spec fn initial_view(
    emoji_map: Seq<(String, String)>,
    vim_mode: bool,
    vim_state: Option<(Option<char>, Seq<char>)>,
    discreet_notifs: bool,
    notifs_display_username: bool,
    silent_typing: bool,
    display_username: bool,
    status: Seq<char>,
) -> AppView {
    AppView {
        state: AppState::Loading(Window::Home),
        guilds: Seq::empty(),
        selected_guild: None,
        guild_members: Seq::empty(),
        channels: Seq::empty(),
        messages: Seq::empty(),
        custom_emojis: Seq::empty(),
        dms: Seq::empty(),
        input: Seq::empty(),
        saved_input: None,
        search_input: Seq::empty(),
        selection_index: 0,
        status_message: status,
        terminal_height: 20,
        terminal_width: 80,
        emoji_map,
        emoji_filter: Seq::empty(),
        emoji_index: 0,
        emoji_filter_start: None,
        chat_scroll_offset: 0,
        tick_count: 0,
        context: None,
        mode: InputMode::Normal,
        cursor_position: 0,
        vim_mode,
        vim_state,
        current_user: None,
        last_message_ids: Map::empty(),
        discreet_notifs,
        deleted_message_ids: Set::empty(),
        last_typing_sent: None,
        typing_users: Map::empty(),
        user_names: Map::empty(),
        user_statuses: Map::empty(),
        user_status_texts: Map::empty(),
        silent_typing,
        is_loading: false,
        notifs_display_username,
        display_username,
        is_invisible_dnd: false,
        logs: Seq::empty(),
    }
}

impl App {
    fn with(setup: Setup, status: String) -> (app: App)
        ensures
            app@ == initial_view(
                setup.emoji_map@,
                setup.vim_mode,
                vim_view(setup.vim_state),
                setup.discreet_notifs,
                setup.notifs_display_username,
                setup.silent_typing,
                setup.display_username,
                status@,
            ),
    {
        let app = App {
            state: AppState::Loading(Window::Home),
            guilds: Vec::new(),
            selected_guild: None,
            guild_members: Vec::new(),
            channels: Vec::new(),
            messages: Vec::new(),
            custom_emojis: Vec::new(),
            dms: Vec::new(),
            input: String::new(),
            saved_input: None,
            search_input: String::new(),
            selection_index: 0,
            status_message: status,
            terminal_height: 20,
            terminal_width: 80,
            emoji_map: setup.emoji_map,
            emoji_filter: String::new(),
            emoji_index: 0,
            emoji_filter_start: None,
            chat_scroll_offset: 0,
            tick_count: 0,
            context: None,
            mode: InputMode::Normal,
            cursor_position: 0,
            vim_mode: setup.vim_mode,
            vim_state: setup.vim_state,
            current_user: None,
            last_message_ids: KeyMap::new(),
            discreet_notifs: setup.discreet_notifs,
            deleted_message_ids: StrSet::new(),
            last_typing_sent: None,
            typing_users: TypingUsers::new(),
            user_names: KeyMap::new(),
            user_statuses: KeyMap::new(),
            user_status_texts: KeyMap::new(),
            silent_typing: setup.silent_typing,
            is_loading: false,
            notifs_display_username: setup.notifs_display_username,
            display_username: setup.display_username,
            is_invisible_dnd: false,
            logs: Vec::new(),
        };
        assert(app@ =~= initial_view(
            setup.emoji_map@,
            setup.vim_mode,
            vim_view(setup.vim_state),
            setup.discreet_notifs,
            setup.notifs_display_username,
            setup.silent_typing,
            setup.display_username,
            status@,
        ));
        app
    }

    /// A client starting with the given settings, showing the home screen's help line.
    pub fn setup(values: Setup) -> (app: App)
        ensures
            app@ == initial_view(
                values.emoji_map@,
                values.vim_mode,
                vim_view(values.vim_state),
                values.discreet_notifs,
                values.notifs_display_username,
                values.silent_typing,
                values.display_username,
                home_status(),
            ),
    {
        let status = lit(
            "Browse either DMs or Servers. Use arrows to navigate, Enter to select & Esc to quit",
        );
        App::with(values, status)
    }
}

impl Default for App {
    /// A client in vim mode with no emojis and no status line.
    fn default() -> (app: App)
        ensures
            app@ == initial_view(
                Seq::empty(),
                true,
                Some((None, Seq::empty())),
                false,
                false,
                false,
                false,
                Seq::empty(),
            ),
    {
        let setup = Setup {
            emoji_map: Vec::new(),
            vim_mode: true,
            vim_state: Some(VimState { operator: None, pending_keys: String::new() }),
            discreet_notifs: false,
            notifs_display_username: false,
            silent_typing: false,
            display_username: false,
        };
        App::with(setup, String::new())
    }
}

// ---------------------------------------------------------------------------
// Screen transitions
// ---------------------------------------------------------------------------

/// The screen that the log view returns to, given the current state.
pub open spec fn window_of(s: AppState) -> Window {
    match s {
        AppState::SelectingGuild => Window::Guild,
        AppState::SelectingDM => Window::DM,
        AppState::SelectingChannel(g) => Window::Channel(g),
        AppState::Chatting(ch) => Window::Chat(ch),
        AppState::EmojiSelection(ch) => Window::Chat(ch),
        AppState::Editing(ch, _, _) => Window::Chat(ch),
        _ => Window::Home,
    }
}

/// The state after moving to a list screen: input, search and cursor cleared, first item
/// selected, with the given state and status line.
pub open spec fn to_list(s: AppView, st: AppState, status: Seq<char>) -> AppView {
    AppView {
        input: Seq::empty(),
        search_input: Seq::empty(),
        cursor_position: 0,
        state: st,
        status_message: status,
        selection_index: 0,
        ..s
    }
}

/// The loading screen, to return to `window`.
pub open spec fn to_loading(s: AppView, window: Window) -> AppView {
    AppView { state: AppState::Loading(window), status_message: loading_status(), ..s }
}

/// The log screen, to return to the current screen.
pub open spec fn to_logs(s: AppView) -> AppView {
    AppView { state: AppState::Logs(window_of(s.state)), status_message: logs_status(), ..s }
}

impl App {
    fn go_to_list(&mut self, st: AppState, status: String)
        ensures
            final(self)@ == to_list(old(self)@, st, status@),
    {
        self.input = String::new();
        self.search_input = String::new();
        self.cursor_position = 0;
        self.state = st;
        self.status_message = status;
        self.selection_index = 0;
        assert(self@ =~= to_list(old(self)@, st, status@));
    }

    /// Moves to the list of guilds.
    pub fn transition_to_guilds(&mut self)
        ensures
            final(self)@ == to_list(old(self)@, AppState::SelectingGuild, guilds_status()),
    {
        let status = lit("Select a server. Use arrows to navigate, Enter to select & Esc to quit");
        self.go_to_list(AppState::SelectingGuild, status);
    }

    /// Moves to the list of direct conversations.
    pub fn transition_to_dm(&mut self)
        ensures
            final(self)@ == to_list(old(self)@, AppState::SelectingDM, dms_status()),
    {
        let status = lit("Select a DM. Use arrows to navigate, Enter to select & Esc to quit");
        self.go_to_list(AppState::SelectingDM, status);
    }

    /// Moves to the home screen.
    pub fn transition_to_home(&mut self)
        ensures
            final(self)@ == to_list(old(self)@, AppState::Home, home_status()),
    {
        let status = lit(
            "Browse either DMs or Servers. Use arrows to navigate, Enter to select & Esc to quit",
        );
        self.go_to_list(AppState::Home, status);
    }

    /// Moves to the channel list of a guild.
    pub fn transition_to_channels(&mut self, guild: Box<Guild>)
        ensures
            final(self)@ == to_list(old(self)@, AppState::SelectingChannel(guild), guilds_status()),
    {
        let status = lit("Select a server. Use arrows to navigate, Enter to select & Esc to quit");
        self.go_to_list(AppState::SelectingChannel(guild), status);
    }

    /// Shows the loading screen, to return to `window`.
    pub fn transition_to_loading(&mut self, window: Window)
        ensures
            final(self)@ == to_loading(old(self)@, window),
    {
        self.state = AppState::Loading(window);
        self.status_message = lit("Loading...");
        assert(self@ =~= to_loading(old(self)@, window));
    }

    /// Shows the logs, to return to the current screen.
    pub fn transition_to_logs(&mut self)
        ensures
            final(self)@ == to_logs(old(self)@),
    {
        let mut old_state = AppState::Home;
        std::mem::swap(&mut old_state, &mut self.state);
        let window = match old_state {
            AppState::SelectingGuild => Window::Guild,
            AppState::SelectingDM => Window::DM,
            AppState::SelectingChannel(g) => Window::Channel(g),
            AppState::Chatting(ch) => Window::Chat(ch),
            AppState::EmojiSelection(ch) => Window::Chat(ch),
            AppState::Editing(ch, _, _) => Window::Chat(ch),
            _ => Window::Home,
        };
        self.state = AppState::Logs(window);
        self.status_message = lit("Reading Logs");
        assert(self@ =~= to_logs(old(self)@));
    }
}


// ---------------------------------------------------------------------------
// Updates from the service and from the log
// ---------------------------------------------------------------------------

pub open spec fn is_logs(st: AppState) -> bool {
    st is Logs
}

pub open spec fn is_chatting(st: AppState) -> bool {
    st is Chatting
}

/// The first activity that is a custom status (kind 4), as its state text.
pub open spec fn custom_status_of(acts: Seq<crate::api::Activity>) -> Option<Option<String>>
    decreases acts.len(),
{
    if acts.len() == 0 {
        None
    } else if acts[0].activity_type == 4 {
        Some(acts[0].state)
    } else {
        custom_status_of(acts.drop_first())
    }
}

/// The messages whose id is not `id`, in order.
pub open spec fn messages_without(ms: Seq<Message>, id: Seq<char>) -> Seq<Message>
    decreases ms.len(),
{
    if ms.len() == 0 {
        Seq::empty()
    } else if ms.last().id@ == id {
        messages_without(ms.drop_last(), id)
    } else {
        messages_without(ms.drop_last(), id).push(ms.last())
    }
}

/// The messages whose id is not in `deleted`, in order.
pub open spec fn messages_kept(ms: Seq<Message>, deleted: Set<Seq<char>>) -> Seq<Message>
    decreases ms.len(),
{
    if ms.len() == 0 {
        Seq::empty()
    } else if deleted.contains(ms.last().id@) {
        messages_kept(ms.drop_last(), deleted)
    } else {
        messages_kept(ms.drop_last(), deleted).push(ms.last())
    }
}

/// The index of the first message with the given id.
pub open spec fn index_of_message(ms: Seq<Message>, id: Seq<char>) -> Option<int>
    decreases ms.len(),
{
    if ms.len() == 0 {
        None
    } else if ms[0].id@ == id {
        Some(0)
    } else {
        match index_of_message(ms.drop_first(), id) {
            Some(i) => Some(i + 1),
            None => None,
        }
    }
}

/// A message with the parts that an update carries replaced.
pub open spec fn updated_message(m: Message, p: crate::api::PartialMessage) -> Message {
    Message {
        content: if p.content is Some {
            p.content
        } else {
            m.content
        },
        author: match p.author {
            Some(a) => a,
            None => m.author,
        },
        timestamp: match p.timestamp {
            Some(t) => t,
            None => m.timestamp,
        },
        ..m
    }
}

/// The log screen with a new line on top.
pub open spec fn after_new_log(s: AppView, log: String) -> AppView {
    AppView {
        logs: seq![log] + s.logs,
        selection_index: if is_logs(s.state) && s.selection_index > 0 {
            (s.selection_index + 1) as usize
        } else {
            s.selection_index
        },
        ..s
    }
}

pub open spec fn after_clear_logs(s: AppView) -> AppView {
    AppView {
        logs: Seq::empty(),
        selection_index: if is_logs(s.state) {
            0
        } else {
            s.selection_index
        },
        ..s
    }
}

pub open spec fn after_presence(s: AppView, p: crate::api::Presence) -> AppView {
    AppView {
        user_statuses: s.user_statuses.insert(p.user.id@, p.status@),
        user_status_texts: match custom_status_of(p.activities@) {
            Some(text) => s.user_status_texts.insert(
                p.user.id@,
                match text {
                    Some(t) => t@,
                    None => Seq::empty(),
                },
            ),
            None => s.user_status_texts.remove(p.user.id@),
        },
        ..s
    }
}

impl App {
    /// Marks that older messages are being loaded.
    pub fn transition_to_loading_messages(&mut self)
        ensures
            final(self)@ == (AppView { is_loading: true, status_message: loading_messages_status(), ..old(self)@ }),
    {
        self.is_loading = true;
        self.status_message = lit("Loading Messages...");
        assert(self@ =~= (AppView { is_loading: true, status_message: loading_messages_status(), ..old(self)@ }));
    }

    /// Marks that older messages have been loaded.
    pub fn end_loading_messages(&mut self)
        ensures
            final(self)@ == (AppView { is_loading: false, status_message: chat_status(), ..old(self)@ }),
    {
        self.is_loading = false;
        self.status_message = lit(
            "Chatting in channel. Press Enter to send message, Esc to return to channels.",
        );
        assert(self@ =~= (AppView { is_loading: false, status_message: chat_status(), ..old(self)@ }));
    }

    /// Puts a new log line on top; on the log screen a selected line stays selected.
    pub fn new_log_received(&mut self, log: String)
        requires
            !(is_logs(old(self).state) && old(self).selection_index == usize::MAX),
        ensures
            final(self)@ == after_new_log(old(self)@, log),
    {
        let ghost l = log;
        self.logs.insert(0, log);
        if let AppState::Logs(_) = &self.state {
            if self.selection_index > 0 {
                self.selection_index += 1;
            }
        }
        assert(self.logs@ =~= seq![l] + old(self).logs@);
        assert(self@ =~= after_new_log(old(self)@, l));
    }

    /// Forgets the log lines shown.
    pub fn clear_logs(&mut self)
        ensures
            final(self)@ == after_clear_logs(old(self)@),
    {
        self.logs.clear();
        if let AppState::Logs(_) = &self.state {
            self.selection_index = 0;
        }
        assert(self@ =~= after_clear_logs(old(self)@));
    }

    /// Takes the user's guilds.
    pub fn api_update_guilds(&mut self, guilds: Vec<PartialGuild>)
        ensures
            final(self)@ == (AppView { guilds: guilds@, status_message: guilds_loaded_status(), ..old(self)@ }),
    {
        let ghost g = guilds@;
        self.guilds = guilds;
        self.status_message = lit("Select a server. Use arrows to navigate, Enter to select & Esc to quit.");
        assert(self@ =~= (AppView { guilds: g, status_message: guilds_loaded_status(), ..old(self)@ }));
    }

    /// Takes the guild's custom emojis.
    pub fn api_update_emojis(&mut self, emojis: Vec<Emoji>)
        ensures
            final(self)@ == (AppView { custom_emojis: emojis@, ..old(self)@ }),
    {
        let ghost e = emojis@;
        self.custom_emojis = emojis;
        assert(self@ =~= (AppView { custom_emojis: e, ..old(self)@ }));
    }

    /// Takes the permissions in the selected guild.
    pub fn api_update_context(&mut self, context: Option<PermissionContext>)
        ensures
            final(self)@ == (AppView { context: context, ..old(self)@ }),
    {
        self.context = context;
        assert(self@ =~= (AppView { context: context, ..old(self)@ }));
    }

    /// Takes the signed-in user.
    pub fn api_update_current_user(&mut self, user: User)
        ensures
            final(self)@ == (AppView { current_user: Some(user), ..old(self)@ }),
    {
        self.current_user = Some(user);
        assert(self@ =~= (AppView { current_user: Some(user), ..old(self)@ }));
    }

    /// Takes the statuses and status texts sent at connection; they override older ones.
    pub fn ready_supplemental(&mut self, statuses: KeyMap<String>, texts: KeyMap<String>)
        ensures
            final(self)@ == (AppView {
                user_statuses: old(self)@.user_statuses.union_prefer_right(statuses@),
                user_status_texts: old(self)@.user_status_texts.union_prefer_right(texts@),
                ..old(self)@
            }),
    {
        let ghost sv = statuses@;
        let ghost tv = texts@;
        self.user_statuses.extend(statuses);
        self.user_status_texts.extend(texts);
        assert(self@ =~= (AppView {
            user_statuses: old(self)@.user_statuses.union_prefer_right(sv),
            user_status_texts: old(self)@.user_status_texts.union_prefer_right(tv),
            ..old(self)@
        }));
    }

    /// Takes a user's new status; the text of its first custom-status activity becomes its
    /// status text, and without one the status text is forgotten.
    pub fn presence_update(&mut self, presence: crate::api::Presence)
        ensures
            final(self)@ == after_presence(old(self)@, presence),
    {
        let ghost p = presence;
        let mut i: usize = 0;
        let mut found: Option<Option<String>> = None;
        assert(presence.activities@.skip(0) =~= presence.activities@);
        while i < presence.activities.len()
            invariant
                i <= presence.activities.len(),
                custom_status_of(presence.activities@) == (match found {
                    Some(x) => Some(x),
                    None => custom_status_of(presence.activities@.skip(i as int)),
                }),
            decreases presence.activities.len() - i,
        {
            if found.is_none() {
                assert(presence.activities@.skip(i as int)[0] == presence.activities@[i as int]);
                assert(presence.activities@.skip(i as int).drop_first() =~= presence.activities@.skip(i as int + 1));
                if presence.activities[i].activity_type == 4 {
                    found = Some(presence.activities[i].state.clone());
                }
            }
            i += 1;
        }
        proof {
            if found is None {
                assert(presence.activities@.skip(i as int).len() == 0);
            }
        }
        let id = presence.user.id.clone();
        self.user_statuses.insert(presence.user.id, presence.status);
        match found {
            Some(text) => {
                let t = match text {
                    Some(t) => t,
                    None => String::new(),
                };
                self.user_status_texts.insert(id, t);
            },
            None => {
                self.user_status_texts.remove(id.as_str());
            },
        }
        assert(self@ =~= after_presence(old(self)@, p));
    }
}


// ---------------------------------------------------------------------------
// Messages, members and typing
// ---------------------------------------------------------------------------

/// The messages of `v` whose id is not `id`.
pub fn messages_without_exec(v: Vec<Message>, id: &str) -> (r: Vec<Message>)
    ensures
        r@ == messages_without(v@, id@),
{
    let idv = chars_of(id);
    let mut kept: Vec<Message> = Vec::new();
    let mut rest = v;
    let ghost all = rest@;
    let n = rest.len();
    let mut i: usize = 0;
    assert(all.skip(0) =~= all);
    while rest.len() > 0
        invariant
            i + rest.len() == all.len(),
            all.len() == n,
            idv@ == id@,
            rest@ == all.skip(i as int),
            kept@ == messages_without(all.take(i as int), id@),
        decreases rest.len(),
    {
        let ghost before = rest@;
        let m = rest.remove(0);
        assert(m == before[0]);
        assert(before[0] == all[i as int]);
        assert(rest@ =~= all.skip(i as int + 1));
        let ghost t = all.take(i as int + 1);
        assert(t.drop_last() =~= all.take(i as int));
        assert(t.last() == m);
        let mid = chars_of(m.id.as_str());
        if !seq_eq(&mid, &idv) {
            kept.push(m);
        }
        i += 1;
    }
    assert(all.take(i as int) =~= all);
    kept
}

/// The messages of `v` whose id is not in `deleted`.
pub fn messages_kept_exec(v: Vec<Message>, deleted: &StrSet) -> (r: Vec<Message>)
    ensures
        r@ == messages_kept(v@, deleted@),
{
    let mut kept: Vec<Message> = Vec::new();
    let mut rest = v;
    let ghost all = rest@;
    let n = rest.len();
    let mut i: usize = 0;
    assert(all.skip(0) =~= all);
    while rest.len() > 0
        invariant
            i + rest.len() == all.len(),
            all.len() == n,
            rest@ == all.skip(i as int),
            kept@ == messages_kept(all.take(i as int), deleted@),
        decreases rest.len(),
    {
        let ghost before = rest@;
        let m = rest.remove(0);
        assert(m == before[0]);
        assert(before[0] == all[i as int]);
        assert(rest@ =~= all.skip(i as int + 1));
        let ghost t = all.take(i as int + 1);
        assert(t.drop_last() =~= all.take(i as int));
        assert(t.last() == m);
        if !deleted.contains(m.id.as_str()) {
            kept.push(m);
        }
        i += 1;
    }
    assert(all.take(i as int) =~= all);
    kept
}

/// Whether `chunk_count` reads as zero (or not as a number), which starts a new member list.
pub open spec fn starts_member_list(chunk_count: Seq<char>) -> bool {
    match parse_usize_spec(chunk_count) {
        Some(n) => n == 0,
        None => true,
    }
}

/// Keeps the entries of the typing map not older than ten seconds at `now` (in ms).
pub open spec fn typing_cutoff(now: u64) -> int {
    if now >= 9999 {
        now - 9999
    } else {
        0
    }
}

/// The state after a message was deleted elsewhere.
pub open spec fn after_message_delete(s: AppView, id: Seq<char>) -> AppView {
    AppView {
        messages: messages_without(s.messages, id),
        deleted_message_ids: s.deleted_message_ids.insert(id),
        selection_index: if s.selection_index > 0 && is_chatting(s.state) {
            (s.selection_index - 1) as usize
        } else {
            s.selection_index
        },
        ..s
    }
}

/// The state after the user deleted a message.
pub open spec fn after_api_delete(s: AppView, id: Seq<char>) -> AppView {
    AppView {
        messages: messages_without(s.messages, id),
        deleted_message_ids: s.deleted_message_ids.insert(id),
        selection_index: if s.selection_index > messages_without(s.messages, id).len() {
            messages_without(s.messages, id).len() as usize
        } else {
            s.selection_index
        },
        ..s
    }
}

/// The state after a chunk of guild members arrived.
pub open spec fn after_members_chunk(s: AppView, members: Seq<GuildMember>, chunk_count: Seq<char>) -> AppView {
    AppView {
        guild_members: if starts_member_list(chunk_count) {
            members
        } else {
            s.guild_members + members
        },
        ..s
    }
}

/// The state after a message was edited elsewhere.
pub open spec fn after_message_update(s: AppView, p: crate::api::PartialMessage) -> AppView {
    match index_of_message(s.messages, p.id@) {
        Some(i) => AppView { messages: s.messages.update(i, updated_message(s.messages[i], p)), ..s },
        None => s,
    }
}

/// The state after someone started typing.
pub open spec fn after_typing_start(s: AppView, channel: Seq<char>, user: Seq<char>, name: Option<Seq<char>>, now: u64) -> AppView {
    AppView {
        typing_users: s.typing_users.insert((channel, user), now),
        user_names: match name {
            Some(n) => s.user_names.insert(user, n),
            None => s.user_names,
        },
        ..s
    }
}

/// The state after a clock tick at `now`.
pub open spec fn after_tick(s: AppView, now: u64) -> AppView {
    AppView {
        tick_count: if s.tick_count == usize::MAX {
            0
        } else {
            (s.tick_count + 1) as usize
        },
        typing_users: fresh_since(s.typing_users, typing_cutoff(now)),
        ..s
    }
}

impl App {
    /// A message was deleted elsewhere: it leaves the chat, is remembered as deleted, and
    /// a selected message keeps its place.
    pub fn gateway_message_delete(&mut self, id: String)
        ensures
            final(self)@ == after_message_delete(old(self)@, id@),
    {
        let ghost iv = id@;
        let mut msgs: Vec<Message> = Vec::new();
        std::mem::swap(&mut msgs, &mut self.messages);
        self.messages = messages_without_exec(msgs, id.as_str());
        self.deleted_message_ids.insert(id);
        if self.selection_index > 0 {
            if let AppState::Chatting(_) = &self.state {
                self.selection_index -= 1;
            }
        }
        assert(self@ =~= after_message_delete(old(self)@, iv));
    }

    /// The user deleted a message: it is deleted on the service, leaves the chat at once and
    /// is remembered as deleted; the selection stays within the list.
    pub fn api_delete_message(&mut self, channel_id: String, message_id: String) -> (effects: Vec<Effect>)
        ensures
            final(self)@ == after_api_delete(old(self)@, message_id@),
            effects@ == seq![Effect::DeleteMessage { channel_id: channel_id, message_id: message_id }],
    {
        let mid = message_id.clone();
        let mut effects: Vec<Effect> = Vec::new();
        effects.push(Effect::DeleteMessage { channel_id, message_id });
        let ghost iv = mid@;
        let mut msgs: Vec<Message> = Vec::new();
        std::mem::swap(&mut msgs, &mut self.messages);
        self.messages = messages_without_exec(msgs, mid.as_str());
        self.deleted_message_ids.insert(mid);
        if self.selection_index > self.messages.len() {
            self.selection_index = self.messages.len();
        }
        assert(self@ =~= after_api_delete(old(self)@, iv));
        effects
    }

    /// The user edited a message: the new text is sent to the service.
    pub fn api_edit_message(&self, channel_id: String, message_id: String, content: String) -> (effects: Vec<Effect>)
        ensures
            effects@ == seq![Effect::EditMessage { channel_id: channel_id, message_id: message_id, content: content }],
    {
        let mut effects: Vec<Effect> = Vec::new();
        effects.push(Effect::EditMessage { channel_id, message_id, content });
        effects
    }

    /// A chunk of guild members arrived; a chunk count of zero starts the list anew.
    pub fn guild_members_chunk(&mut self, members: Vec<GuildMember>, chunk_count: String)
        ensures
            final(self)@ == after_members_chunk(old(self)@, members@, chunk_count@),
    {
        let ghost mv = members@;
        let restart = match parse_usize(chunk_count.as_str()) {
            Some(n) => n == 0,
            None => true,
        };
        if restart {
            self.guild_members = Vec::new();
        }
        let mut m = members;
        self.guild_members.append(&mut m);
        assert(self@ =~= after_members_chunk(old(self)@, mv, chunk_count@));
    }

    /// A message was edited elsewhere: the first message with its id takes the new text,
    /// author and time that the update carries.
    pub fn gateway_message_update(&mut self, update: crate::api::PartialMessage)
        ensures
            final(self)@ == after_message_update(old(self)@, update),
    {
        let ghost p = update;
        let idv = chars_of(update.id.as_str());
        let mut i: usize = 0;
        assert(self.messages@.skip(0) =~= self.messages@);
        while i < self.messages.len()
            invariant
                i <= self.messages.len(),
                idv@ == update.id@,
                index_of_message(self.messages@, update.id@) == (match index_of_message(self.messages@.skip(i as int), update.id@) {
                    Some(k) => Some(k + i),
                    None => None::<int>,
                }),
            ensures
                i <= self.messages.len(),
                i < self.messages.len() ==> self.messages@[i as int].id@ == update.id@,
                index_of_message(self.messages@, update.id@) == (match index_of_message(self.messages@.skip(i as int), update.id@) {
                    Some(k) => Some(k + i),
                    None => None::<int>,
                }),
            decreases self.messages.len() - i,
        {
            assert(self.messages@.skip(i as int)[0] == self.messages@[i as int]);
            assert(self.messages@.skip(i as int).drop_first() =~= self.messages@.skip(i as int + 1));
            let mid = chars_of(self.messages[i].id.as_str());
            if seq_eq(&mid, &idv) {
                break;
            }
            i += 1;
        }
        if i < self.messages.len() {
            let mut msgs: Vec<Message> = Vec::new();
            std::mem::swap(&mut msgs, &mut self.messages);
            let mut existing = msgs.remove(i);
            let crate::api::PartialMessage { id: _, channel_id: _, author, content, timestamp } = update;
            if content.is_some() {
                existing.content = content;
            }
            if let Some(a) = author {
                existing.author = a;
            }
            if let Some(t) = timestamp {
                existing.timestamp = t;
            }
            msgs.insert(i, existing);
            self.messages = msgs;
            assert(old(self).messages@.skip(i as int)[0] == old(self).messages@[i as int]);
            assert(index_of_message(old(self).messages@, p.id@) == Some(i as int));
            assert(self.messages@ =~= old(self).messages@.update(i as int, updated_message(old(self).messages@[i as int], p)));
            assert(self@ =~= after_message_update(old(self)@, p));
        } else {
            assert(self.messages@.skip(i as int).len() == 0);
        }
    }

    /// Someone started typing in a channel at `now`; the name the service gave is
    /// remembered for that user.
    pub fn typing_start(&mut self, channel_id: String, user_id: String, name: Option<String>, now: u64)
        ensures
            final(self)@ == after_typing_start(old(self)@, channel_id@, user_id@, opt_view(name), now),
    {
        let ghost (c, u, nv) = (channel_id@, user_id@, opt_view(name));
        let uid = user_id.clone();
        self.typing_users.insert(channel_id, user_id, now);
        if let Some(n) = name {
            self.user_names.insert(uid, n);
        }
        assert(self@ =~= after_typing_start(old(self)@, c, u, nv, now));
    }

    /// A clock tick at `now` (in milliseconds): the tick count advances (wrapping) and
    /// typing notices older than ten seconds are dropped.
    pub fn tick(&mut self, now: u64)
        ensures
            final(self)@ == after_tick(old(self)@, now),
    {
        if self.tick_count == usize::MAX {
            self.tick_count = 0;
        } else {
            self.tick_count += 1;
        }
        let cutoff: u64 = if now >= 9999 { now - 9999 } else { 0 };
        self.typing_users.expire_before(cutoff);
        assert(self@ =~= after_tick(old(self)@, now));
    }
}


// ---------------------------------------------------------------------------
// Loaded messages and conversations
// ---------------------------------------------------------------------------

/// The conversation that the current screen shows or is loading has the given id.
pub open spec fn shows_channel(st: AppState, ch: Seq<char>) -> bool {
    match st {
        AppState::Loading(Window::Chat(c)) => c.id_view() == ch,
        AppState::Chatting(c) => c.id_view() == ch,
        AppState::Editing(c, _, _) => c.id_view() == ch,
        AppState::EmojiSelection(c) => c.id_view() == ch,
        _ => false,
    }
}

/// The index of the message with the greatest id in the order of `String` (the last one
/// among equals).
pub open spec fn newest_index(ms: Seq<Message>) -> int
    decreases ms.len(),
{
    if ms.len() <= 1 {
        0
    } else {
        let k = newest_index(ms.drop_last());
        if seq_lt(ms.last().id@, ms[k].id@) {
            k
        } else {
            ms.len() - 1
        }
    }
}

/// A message id read as a number, 0 when it does not read as one.
pub open spec fn id_number(s: Seq<char>) -> u64 {
    match parse_u64_spec(s) {
        Some(n) => n,
        None => 0,
    }
}

/// A message with id `newest` is acknowledged in a channel unless one with a greater (or
/// equal) number was seen there.
pub open spec fn should_ack(last_ids: Map<Seq<char>, Seq<char>>, ch: Seq<char>, newest: Seq<char>) -> bool {
    if last_ids.contains_key(ch) {
        id_number(newest) > id_number(last_ids[ch])
    } else {
        true
    }
}

/// The username cache after seeing the authors of the given messages.
pub open spec fn names_from_messages(names: Map<Seq<char>, Seq<char>>, ms: Seq<Message>) -> Map<Seq<char>, Seq<char>>
    decreases ms.len(),
{
    if ms.len() == 0 {
        names
    } else {
        names_from_messages(names, ms.drop_last()).insert(ms.last().author.id@, ms.last().author.username@)
    }
}

/// Whether loading the messages of `ch` acknowledges the newest one.
pub open spec fn acks_messages(s: AppView, ch: Seq<char>, ms: Seq<Message>) -> bool {
    ms.len() > 0 && should_ack(s.last_message_ids, ch, ms[newest_index(ms)].id@)
}

/// The state after the messages of channel `ch` were loaded.
pub open spec fn after_update_messages(s: AppView, ch: Seq<char>, ms: Seq<Message>) -> AppView {
    if !shows_channel(s.state, ch) {
        s
    } else {
        AppView {
            last_message_ids: if acks_messages(s, ch, ms) {
                s.last_message_ids.insert(ch, ms[newest_index(ms)].id@)
            } else {
                s.last_message_ids
            },
            user_names: names_from_messages(s.user_names, ms),
            messages: messages_kept(ms, s.deleted_message_ids),
            ..s
        }
    }
}

impl App {
    /// The messages of a channel were loaded. When the channel is the one shown (or being
    /// loaded), the newest message is acknowledged if it is newer than the last one seen,
    /// the notifications of the channel are closed, the authors' names are remembered, and
    /// the messages not deleted meanwhile are shown.
    pub fn api_update_messages(&mut self, channel_id: String, new_messages: Vec<Message>) -> (effects: Vec<Effect>)
        ensures
            final(self)@ == after_update_messages(old(self)@, channel_id@, new_messages@),
            !shows_channel(old(self)@.state, channel_id@) ==> effects@.len() == 0,
            shows_channel(old(self)@.state, channel_id@) && acks_messages(old(self)@, channel_id@, new_messages@) ==> effects@ == seq![
                Effect::AckMessage { channel_id: channel_id, message_id: new_messages@[newest_index(new_messages@)].id },
                Effect::CloseNotifications { channel_id: channel_id },
            ],
            shows_channel(old(self)@.state, channel_id@) && !acks_messages(old(self)@, channel_id@, new_messages@) ==> effects@ == seq![
                Effect::CloseNotifications { channel_id: channel_id },
            ],
    {
        let mut effects: Vec<Effect> = Vec::new();
        let relevant = match &self.state {
            AppState::Loading(Window::Chat(c)) => str_eq(c.get_id().as_str(), channel_id.as_str()),
            AppState::Chatting(c) => str_eq(c.get_id().as_str(), channel_id.as_str()),
            AppState::Editing(c, _, _) => str_eq(c.get_id().as_str(), channel_id.as_str()),
            AppState::EmojiSelection(c) => str_eq(c.get_id().as_str(), channel_id.as_str()),
            _ => false,
        };
        assert(relevant == shows_channel(old(self)@.state, channel_id@));
        if !relevant {
            return effects;
        }
        let ghost ms = new_messages@;
        if new_messages.len() > 0 {
            let mut best: usize = 0;
            let mut i: usize = 1;
            while i < new_messages.len()
                invariant
                    1 <= i <= new_messages.len(),
                    ms == new_messages@,
                    best < i,
                    best == newest_index(ms.take(i as int)),
                decreases new_messages.len() - i,
            {
                let ghost t = ms.take(i as int + 1);
                assert(t.drop_last() =~= ms.take(i as int));
                if !str_lt(new_messages[i].id.as_str(), new_messages[best].id.as_str()) {
                    best = i;
                }
                i += 1;
            }
            assert(ms.take(i as int) =~= ms);
            let newest_id = new_messages[best].id.clone();
            let ack = match self.last_message_ids.get(channel_id.as_str()) {
                Some(last) => {
                    let a = match parse_u64(newest_id.as_str()) {
                        Some(n) => n,
                        None => 0,
                    };
                    let b = match parse_u64(last.as_str()) {
                        Some(n) => n,
                        None => 0,
                    };
                    a > b
                },
                None => true,
            };
            assert(ack == should_ack(old(self)@.last_message_ids, channel_id@, ms[newest_index(ms)].id@));
            if ack {
                self.last_message_ids.insert(channel_id.clone(), newest_id.clone());
                effects.push(Effect::AckMessage { channel_id: channel_id.clone(), message_id: newest_id });
            }
        }
        assert(self.last_message_ids@ == (if acks_messages(old(self)@, channel_id@, ms) {
            old(self)@.last_message_ids.insert(channel_id@, ms[newest_index(ms)].id@)
        } else {
            old(self)@.last_message_ids
        }));
        effects.push(Effect::CloseNotifications { channel_id: channel_id.clone() });
        let mut j: usize = 0;
        let mut names: KeyMap<String> = KeyMap::new();
        std::mem::swap(&mut names, &mut self.user_names);
        let ghost names0 = names@;
        while j < new_messages.len()
            invariant
                j <= new_messages.len(),
                ms == new_messages@,
                names@ == names_from_messages(names0, ms.take(j as int)),
            decreases new_messages.len() - j,
        {
            let ghost t = ms.take(j as int + 1);
            assert(t.drop_last() =~= ms.take(j as int));
            let id = new_messages[j].author.id.clone();
            let name = new_messages[j].author.username.clone();
            names.insert(id, name);
            j += 1;
        }
        self.user_names = names;
        assert(ms.take(j as int) =~= ms);
        self.messages = messages_kept_exec(new_messages, &self.deleted_message_ids);
        assert(self@ =~= after_update_messages(old(self)@, channel_id@, ms));
        effects
    }
}


/// The number by which conversations are ordered: that of the last message, 0 without one.
pub open spec fn dm_key(d: DM) -> u64 {
    match d.last_message_id {
        Some(s) => id_number(s@),
        None => 0,
    }
}

/// `x` put into the list, which is ordered by falling key, after every item whose key is not
/// less than its own.
pub open spec fn insert_by_key(sorted: Seq<DM>, x: DM) -> Seq<DM>
    decreases sorted.len(),
{
    if sorted.len() == 0 {
        seq![x]
    } else if dm_key(sorted.last()) >= dm_key(x) {
        sorted.push(x)
    } else {
        insert_by_key(sorted.drop_last(), x).push(sorted.last())
    }
}

/// The conversations ordered by falling key, those with equal keys in their given order
/// (a stable sort).
pub open spec fn sort_by_key_desc(s: Seq<DM>) -> Seq<DM>
    decreases s.len(),
{
    if s.len() == 0 {
        Seq::empty()
    } else {
        insert_by_key(sort_by_key_desc(s.drop_last()), s.last())
    }
}

/// The username cache after seeing the given users.
pub open spec fn names_from_users(names: Map<Seq<char>, Seq<char>>, us: Seq<User>) -> Map<Seq<char>, Seq<char>>
    decreases us.len(),
{
    if us.len() == 0 {
        names
    } else {
        names_from_users(names, us.drop_last()).insert(us.last().id@, us.last().username@)
    }
}

/// The username cache after seeing the participants of the given conversations.
pub open spec fn names_from_dms(names: Map<Seq<char>, Seq<char>>, ds: Seq<DM>) -> Map<Seq<char>, Seq<char>>
    decreases ds.len(),
{
    if ds.len() == 0 {
        names
    } else {
        names_from_users(names_from_dms(names, ds.drop_last()), ds.last().recipients@)
    }
}

/// The last seen message of each conversation, where none was known yet.
pub open spec fn last_ids_from_dms(ids: Map<Seq<char>, Seq<char>>, ds: Seq<DM>) -> Map<Seq<char>, Seq<char>>
    decreases ds.len(),
{
    if ds.len() == 0 {
        ids
    } else {
        let prev = last_ids_from_dms(ids, ds.drop_last());
        match ds.last().last_message_id {
            Some(m) => if prev.contains_key(ds.last().id@) {
                prev
            } else {
                prev.insert(ds.last().id@, m@)
            },
            None => prev,
        }
    }
}

pub open spec fn dms_loaded_status(n: nat) -> Seq<char> {
    if n > 0 {
        "DMs loaded. Select one to chat. (Esc to return to Home)"@
    } else {
        "No DMs found. (Esc to return to Home)"@
    }
}

pub open spec fn channels_loaded_status(n: nat) -> Seq<char> {
    if n > 0 {
        "Channels loaded. Select one to chat. (Esc to return to Servers)"@
    } else {
        "No text channels found. (Esc to return to Servers)"@
    }
}

/// The state after the user's conversations were loaded.
pub open spec fn after_update_dms(s: AppView, ds: Seq<DM>) -> AppView {
    let sorted = sort_by_key_desc(ds);
    AppView {
        dms: sorted,
        user_names: names_from_dms(s.user_names, sorted),
        last_message_ids: last_ids_from_dms(s.last_message_ids, sorted),
        status_message: dms_loaded_status(ds.len()),
        selection_index: 0,
        ..s
    }
}

/// The state after the channels of the selected guild were loaded.
pub open spec fn after_update_channels(s: AppView, chs: Seq<Channel>) -> AppView {
    AppView {
        channels: chs,
        status_message: channels_loaded_status(chs.len()),
        selection_index: 0,
        ..s
    }
}

/// The sort key of a conversation.
pub fn dm_key_exec(d: &DM) -> (k: u64)
    ensures
        k == dm_key(*d),
{
    match &d.last_message_id {
        Some(s) => match parse_u64(s.as_str()) {
            Some(n) => n,
            None => 0,
        },
        None => 0,
    }
}

proof fn lemma_insert_by_key_split(out: Seq<DM>, x: DM, p: int)
    requires
        0 <= p <= out.len(),
        forall|j: int| p <= j < out.len() ==> dm_key(#[trigger] out[j]) < dm_key(x),
    ensures
        insert_by_key(out, x) == insert_by_key(out.take(p), x) + out.skip(p),
    decreases out.len() - p,
{
    if p == out.len() {
        assert(out.take(p) =~= out);
        assert(out.skip(p) =~= Seq::<DM>::empty());
        assert(insert_by_key(out, x) + Seq::<DM>::empty() =~= insert_by_key(out, x));
    } else {
        lemma_insert_by_key_split(out.drop_last(), x, p);
        assert(out.drop_last().take(p) =~= out.take(p));
        assert(out.drop_last().skip(p).push(out.last()) =~= out.skip(p));
        assert((insert_by_key(out.take(p), x) + out.drop_last().skip(p)).push(out.last())
            =~= insert_by_key(out.take(p), x) + out.skip(p));
    }
}

/// The conversations in a stable order by falling key.
pub fn sort_dms(v: Vec<DM>) -> (r: Vec<DM>)
    ensures
        r@ == sort_by_key_desc(v@),
{
    let mut out: Vec<DM> = Vec::new();
    let mut rest = v;
    let ghost all = rest@;
    let n = rest.len();
    let mut i: usize = 0;
    assert(all.skip(0) =~= all);
    while rest.len() > 0
        invariant
            i + rest.len() == all.len(),
            all.len() == n,
            rest@ == all.skip(i as int),
            out@ == sort_by_key_desc(all.take(i as int)),
        decreases rest.len(),
    {
        let ghost before = rest@;
        let x = rest.remove(0);
        assert(x == before[0]);
        assert(before[0] == all[i as int]);
        assert(rest@ =~= all.skip(i as int + 1));
        let ghost t = all.take(i as int + 1);
        assert(t.drop_last() =~= all.take(i as int));
        assert(t.last() == x);
        let kx = dm_key_exec(&x);
        let mut p = out.len();
        while p > 0 && dm_key_exec(&out[p - 1]) < kx
            invariant
                p <= out.len(),
                kx == dm_key(x),
                forall|j: int| p <= j < out.len() ==> dm_key(#[trigger] out@[j]) < dm_key(x),
            decreases p,
        {
            p -= 1;
        }
        proof {
            lemma_insert_by_key_split(out@, x, p as int);
            if p > 0 {
                assert(out@.take(p as int).drop_last() =~= out@.take(p as int - 1));
                assert(insert_by_key(out@.take(p as int), x) == out@.take(p as int).push(x));
            } else {
                assert(insert_by_key(out@.take(0), x) == seq![x]);
            }
        }
        let ghost o = out@;
        out.insert(p, x);
        assert(out@ =~= o.take(p as int).push(x) + o.skip(p as int));
        i += 1;
    }
    assert(all.take(i as int) =~= all);
    out
}

impl App {
    /// The user's conversations were loaded: they are shown newest first, their
    /// participants' names are remembered, and each one's last message is taken as seen
    /// unless one was known already.
    pub fn api_update_dms(&mut self, new_dms: Vec<DM>)
        ensures
            final(self)@ == after_update_dms(old(self)@, new_dms@),
    {
        let ghost dv = new_dms@;
        let count = new_dms.len();
        let sorted = sort_dms(new_dms);
        let ghost sv = sorted@;
        let mut names: KeyMap<String> = KeyMap::new();
        std::mem::swap(&mut names, &mut self.user_names);
        let mut ids: KeyMap<String> = KeyMap::new();
        std::mem::swap(&mut ids, &mut self.last_message_ids);
        let ghost names0 = names@;
        let ghost ids0 = ids@;
        let mut i: usize = 0;
        while i < sorted.len()
            invariant
                i <= sorted.len(),
                sv == sorted@,
                names@ == names_from_dms(names0, sv.take(i as int)),
                ids@ == last_ids_from_dms(ids0, sv.take(i as int)),
            decreases sorted.len() - i,
        {
            let ghost t = sv.take(i as int + 1);
            assert(t.drop_last() =~= sv.take(i as int));
            assert(t.last() == sorted@[i as int]);
            let ghost base = names@;
            let mut k: usize = 0;
            while k < sorted[i].recipients.len()
                invariant
                    i < sorted.len(),
                    k <= sorted@[i as int].recipients.len(),
                    names@ == names_from_users(base, sorted@[i as int].recipients@.take(k as int)),
                decreases sorted@[i as int].recipients.len() - k,
            {
                let ghost u = sorted@[i as int].recipients@.take(k as int + 1);
                assert(u.drop_last() =~= sorted@[i as int].recipients@.take(k as int));
                let id = sorted[i].recipients[k].id.clone();
                let name = sorted[i].recipients[k].username.clone();
                names.insert(id, name);
                k += 1;
            }
            assert(sorted@[i as int].recipients@.take(k as int) =~= sorted@[i as int].recipients@);
            if let Some(m) = &sorted[i].last_message_id {
                ids.insert_if_absent(sorted[i].id.clone(), m.clone());
            }
            i += 1;
        }
        assert(sv.take(i as int) =~= sv);
        self.user_names = names;
        self.last_message_ids = ids;
        self.dms = sorted;
        self.status_message = if count > 0 {
            lit("DMs loaded. Select one to chat. (Esc to return to Home)")
        } else {
            lit("No DMs found. (Esc to return to Home)")
        };
        self.selection_index = 0;
        assert(self@ =~= after_update_dms(old(self)@, dv));
    }

    /// The channels of the selected guild were loaded.
    pub fn api_update_channel(&mut self, new_channels: Vec<Channel>)
        ensures
            final(self)@ == after_update_channels(old(self)@, new_channels@),
    {
        let ghost cv = new_channels@;
        let count = new_channels.len();
        self.channels = new_channels;
        self.status_message = if count > 0 {
            lit("Channels loaded. Select one to chat. (Esc to return to Servers)")
        } else {
            lit("No text channels found. (Esc to return to Servers)")
        };
        self.selection_index = 0;
        assert(self@ =~= after_update_channels(old(self)@, cv));
    }
}

} // verus!
