use vstd::prelude::*;

use crate::api::{same_dm, DM, Emoji, Guild, GuildMember, Message, PartialGuild, PartialMessage, Presence, User};
use crate::collections::KeyMap;
use crate::text::{chars_of, seq_eq};

verus! {

/// A channel of a guild; a category (type 4) holds its channels as children.
#[derive(Debug, Clone, PartialEq)]
pub struct Channel {
    pub id: String,
    pub name: String,
    pub channel_type: u8,
    pub guild_id: Option<String>,
    pub children: Option<Vec<ChildChannel>>,
}

/// A channel inside a category.
#[derive(Debug, Clone, PartialEq)]
pub struct ChildChannel {
    pub id: String,
    pub name: String,
    pub channel_type: u8,
    pub guild_id: Option<String>,
}

/// What the current user may see in the selected guild: the ids of the channels whose
/// messages it can read.
#[derive(Debug, Clone, PartialEq)]
pub struct PermissionContext {
    pub readable_channel_ids: Vec<String>,
}

impl PermissionContext {
    /// The channel with this id is among the readable ones.
    pub open spec fn allows_id(&self, id: Seq<char>) -> bool {
        exists|i: int|
            0 <= i < self.readable_channel_ids.len() && #[trigger] self.readable_channel_ids@[i]@ == id
    }

    /// Whether the channel with this id is among the readable ones.
    pub fn allows(&self, id: &str) -> (r: bool)
        ensures
            r == self.allows_id(id@),
    {
        let idv = chars_of(id);
        let mut i: usize = 0;
        while i < self.readable_channel_ids.len()
            invariant
                i <= self.readable_channel_ids.len(),
                idv@ == id@,
                forall|j: int| 0 <= j < i ==> self.readable_channel_ids@[j]@ != id@,
            decreases self.readable_channel_ids.len() - i,
        {
            let other = chars_of(self.readable_channel_ids[i].as_str());
            if seq_eq(&other, &idv) {
                assert(self.readable_channel_ids@[i as int]@ == id@);
                return true;
            }
            i += 1;
        }
        false
    }
}

impl Channel {
    /// The user may read this channel under the given permissions.
    pub open spec fn readable_under(&self, context: PermissionContext) -> bool {
        context.allows_id(self.id@)
    }

    /// Whether the user may read this channel under the given permissions.
    pub fn is_readable(&self, context: &PermissionContext) -> (r: bool)
        ensures
            r == self.readable_under(*context),
    {
        context.allows(self.id.as_str())
    }
}

/// The two channels hold the same data.
pub open spec fn same_channel(a: Channel, b: Channel) -> bool {
    a.id == b.id && a.name == b.name && a.channel_type == b.channel_type && a.guild_id == b.guild_id
        && match (a.children, b.children) {
        (None, None) => true,
        (Some(x), Some(y)) => x@ == y@,
        _ => false,
    }
}

/// The two conversations hold the same data.
pub open spec fn same_any_channel(a: AnyChannel, b: AnyChannel) -> bool {
    match (a, b) {
        (AnyChannel::Guild(x), AnyChannel::Guild(y)) => same_channel(x, y),
        (AnyChannel::Direct(x), AnyChannel::Direct(y)) => same_dm(x, y),
        _ => false,
    }
}

impl ChildChannel {
    pub fn copy(&self) -> (r: ChildChannel)
        ensures
            r == *self,
    {
        ChildChannel {
            id: self.id.clone(),
            name: self.name.clone(),
            channel_type: self.channel_type,
            guild_id: self.guild_id.clone(),
        }
    }
}

impl Channel {
    pub fn copy(&self) -> (r: Channel)
        ensures
            same_channel(r, *self),
    {
        let children = match &self.children {
            None => None,
            Some(v) => {
                let mut out: Vec<ChildChannel> = Vec::new();
                let mut i: usize = 0;
                while i < v.len()
                    invariant
                        i <= v.len(),
                        out@ == v@.take(i as int),
                    decreases v.len() - i,
                {
                    out.push(v[i].copy());
                    assert(out@ =~= v@.take(i as int + 1));
                    i += 1;
                }
                assert(v@.take(v.len() as int) =~= v@);
                Some(out)
            },
        };
        Channel {
            id: self.id.clone(),
            name: self.name.clone(),
            channel_type: self.channel_type,
            guild_id: self.guild_id.clone(),
            children,
        }
    }
}

/// A conversation: a channel of a guild or a direct conversation.
#[derive(Debug, Clone, PartialEq)]
pub enum AnyChannel {
    Guild(Channel),
    Direct(DM),
}

impl AnyChannel {
    pub open spec fn id_view(&self) -> Seq<char> {
        match self {
            AnyChannel::Guild(c) => c.id@,
            AnyChannel::Direct(d) => d.id@,
        }
    }

    pub fn copy(&self) -> (r: AnyChannel)
        ensures
            same_any_channel(r, *self),
    {
        match self {
            AnyChannel::Guild(c) => AnyChannel::Guild(c.copy()),
            AnyChannel::Direct(d) => AnyChannel::Direct(d.copy()),
        }
    }

    /// The conversation's id.
    pub fn get_id(&self) -> (r: String)
        ensures
            r@ == self.id_view(),
    {
        match self {
            AnyChannel::Guild(c) => c.id.clone(),
            AnyChannel::Direct(d) => d.id.clone(),
        }
    }
}

/// What vim's normal mode remembers between keys.
#[derive(Debug, Clone, PartialEq)]
pub struct VimState {
    pub operator: Option<char>,
    pub pending_keys: String,
}

#[derive(Debug)]
pub enum KeywordAction {
    Continue,
    Break,
}

/// A screen to come back to.
#[derive(Debug, Clone, PartialEq)]
pub enum Window {
    Home,
    Guild,
    DM,
    Channel(Box<Guild>),
    Chat(Box<AnyChannel>),
}

#[derive(Debug, Clone, PartialEq)]
pub enum AppState {
    Home,
    SelectingGuild,
    SelectingDM,
    SelectingChannel(Box<Guild>),
    Chatting(Box<AnyChannel>),
    EmojiSelection(Box<AnyChannel>),
    Editing(Box<AnyChannel>, Box<Message>, String),
    Loading(Window),
    Logs(Window),
}

#[derive(Debug, Clone, Copy, PartialEq, Eq, Structural)]
pub enum InputMode {
    Normal,
    Insert,
    Command,
    Search,
}

/// The kinds of log lines.
#[derive(Debug, Clone, Copy, PartialEq, Eq, Structural)]
pub enum LogType {
    Error,
    Warning,
    Info,
    Debug,
}

#[derive(Debug)]
pub enum AppAction {
    SigInt,
    InputChar(char),
    InputBackspace,
    InputDelete,
    InputEscape,
    InputSubmit,
    SelectNext,
    SelectPrevious,
    SelectLeft,
    SelectRight,
    ApiDeleteMessage(String, String),
    ApiEditMessage(String, String, String),
    ApiUpdateMessages(String, Vec<Message>),
    ApiUpdateChannel(Vec<Channel>),
    ApiUpdateEmojis(Vec<Emoji>),
    ApiUpdateGuilds(Vec<PartialGuild>),
    ApiUpdateDMs(Vec<DM>),
    ApiUpdateContext(Option<PermissionContext>),
    ApiUpdateCurrentUser(User),
    GatewayMessageCreate(Message),
    GatewayMessageUpdate(PartialMessage),
    /// message id, channel id
    GatewayMessageDelete(String, String),
    /// channel id, user id, shown name
    GatewayTypingStart(String, String, Option<String>),
    GatewayGuildMembersChunk(String, Vec<GuildMember>, String, String),
    /// user id to status, user id to status text
    GatewayReadySupplemental(KeyMap<String>, KeyMap<String>),
    GatewayPresenceUpdate(Presence),
    TransitionToChat(Box<AnyChannel>),
    TransitionToEditing(Box<AnyChannel>, Message, String, char),
    TransitionToChannels(Box<Guild>),
    TransitionToGuilds,
    TransitionToDM,
    TransitionToHome,
    TransitionToLoading(Window),
    TransitionToLogs,
    TransitionToLoadingMessages,
    EndLoading,
    EndLogs,
    EndLoadingMessages,
    SelectEmoji,
    Paste(String),
    /// summary, body, channel id
    DesktopNotification(String, String, String),
    Tick,
    NewLogReceived(String),
    ClearLogs,
}

/// A message notification to be shown for a message that arrived elsewhere.
#[derive(Debug)]
pub struct Notice {
    /// Who sent the message, as shown.
    pub sender: String,
    /// The text to show under the sender.
    pub body: String,
    pub channel_id: String,
    /// Whether the message came in a direct conversation.
    pub is_dm: bool,
    /// Whether only the kind of event is shown, not the text.
    pub discreet: bool,
    /// The guild's name, when the message came in a known guild.
    pub guild_name: Option<String>,
    /// The channel's name, when the channel is among those loaded.
    pub channel_name: Option<String>,
}

/// What the surrounding program is asked to do after a step of the application.
#[derive(Debug)]
pub enum Effect {
    /// Queue a follow-up action.
    Send(AppAction),
    /// Mark a message as read.
    AckMessage { channel_id: String, message_id: String },
    DeleteMessage { channel_id: String, message_id: String },
    EditMessage { channel_id: String, message_id: String, content: String },
    /// Tell the service that the user is typing in a channel.
    TriggerTyping { channel_id: String },
    /// Close the desktop notifications shown for a channel.
    CloseNotifications { channel_id: String },
    /// Show a desktop notification.
    ShowNotification { summary: String, body: String, channel_id: String },
    /// Prepare and show a notification for a message.
    Notify(Notice),
    /// Leave a chat: find out where the channel belongs and go back there.
    LeaveChat { channel_id: String },
    /// Load the messages of a direct conversation and open it.
    OpenDm(DM),
    /// Load a guild and its channels.
    OpenGuild(PartialGuild),
    /// Subscribe to a guild channel, load its messages and open it.
    OpenChannel { guild_id: String, channel: Channel },
    /// Send a message.
    SendMessage { channel_id: String, content: String },
    /// Replace the text of a message, then reload the view of the chat.
    SubmitEdit { channel: Box<AnyChannel>, message_id: String, content: String },
    /// Write a line to the log.
    Log { kind: LogType, text: String },
    /// Change the user's status and status text.
    SetStatus { status: String, text: String },
}

/// What a step of the application returns: whether the main loop goes on, stops or skips
/// drawing, and what is to be done outside.
#[derive(Debug)]
pub struct Step {
    pub keyword: Option<KeywordAction>,
    pub effects: Vec<Effect>,
}

} // verus!
