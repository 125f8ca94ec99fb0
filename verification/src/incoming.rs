use vstd::prelude::*;

use crate::api::{display_name, lit, mapped_content, same_guild, user_display_name, Guild, Message, DM};
use crate::app::{id_number, App, AppView};
use crate::collections::KeyMap;
use crate::num::parse_u64;
use crate::state::{AnyChannel, AppState, Channel, Effect, Notice};
use crate::text::{concat, push_all, str_eq};

verus! {

// ---------------------------------------------------------------------------
// A message arrives
// ---------------------------------------------------------------------------

/// The id of the conversation being chatted in, if any.
pub open spec fn active_channel(st: AppState) -> Option<Seq<char>> {
    match st {
        AppState::Chatting(ch) => Some(ch.id_view()),
        _ => None,
    }
}

pub open spec fn msg_key(m: Message) -> u64 {
    id_number(m.id@)
}

/// `x` put into the list, which is ordered by falling id, after every message whose id is
/// not less than its own.
pub open spec fn insert_message(sorted: Seq<Message>, x: Message) -> Seq<Message>
    decreases sorted.len(),
{
    if sorted.len() == 0 {
        seq![x]
    } else if msg_key(sorted.last()) >= msg_key(x) {
        sorted.push(x)
    } else {
        insert_message(sorted.drop_last(), x).push(sorted.last())
    }
}

/// The messages ordered by falling id (read as a number), equal ones in their given order.
pub open spec fn sort_messages(s: Seq<Message>) -> Seq<Message>
    decreases s.len(),
{
    if s.len() == 0 {
        Seq::empty()
    } else {
        insert_message(sort_messages(s.drop_last()), s.last())
    }
}

/// Some conversation has the given id.
pub open spec fn is_dm_channel(dms: Seq<DM>, ch: Seq<char>) -> bool {
    exists|i: int| 0 <= i < dms.len() && #[trigger] dms[i].id@ == ch
}

/// The message mentions the signed-in user.
pub open spec fn mentions_user(m: Message, me: Option<crate::api::User>) -> bool {
    match me {
        Some(u) => exists|i: int| 0 <= i < m.mentions.len() && #[trigger] m.mentions@[i].id@ == u.id@,
        None => false,
    }
}

/// The signed-in user wrote the message.
pub open spec fn is_own(m: Message, me: Option<crate::api::User>) -> bool {
    match me {
        Some(u) => u.id@ == m.author.id@,
        None => false,
    }
}

/// The signed-in user does not want to be disturbed.
pub open spec fn is_dnd(s: AppView) -> bool {
    s.is_invisible_dnd || match s.current_user {
        Some(u) => s.user_statuses.contains_key(u.id@) && s.user_statuses[u.id@] == "dnd"@,
        None => false,
    }
}

/// The first conversation with the given id.
pub open spec fn dm_index(dms: Seq<DM>, ch: Seq<char>) -> Option<int>
    decreases dms.len(),
{
    if dms.len() == 0 {
        None
    } else if dms[0].id@ == ch {
        Some(0)
    } else {
        match dm_index(dms.drop_first(), ch) {
            Some(i) => Some(i + 1),
            None => None,
        }
    }
}

/// The conversations with the one with id `ch` moved to the top, its last message set.
pub open spec fn dm_to_top(dms: Seq<DM>, ch: Seq<char>, msg_id: String) -> Seq<DM> {
    match dm_index(dms, ch) {
        Some(i) => seq![DM { last_message_id: Some(msg_id), ..dms[i] }] + dms.remove(i),
        None => dms,
    }
}

/// The name of the first known guild with the given id.
pub open spec fn guild_name_of(gs: Seq<crate::api::PartialGuild>, id: Seq<char>) -> Option<Seq<char>>
    decreases gs.len(),
{
    if gs.len() == 0 {
        None
    } else if gs[0].id@ == id {
        Some(gs[0].name@)
    } else {
        guild_name_of(gs.drop_first(), id)
    }
}

/// The name of the channel with the given id among the loaded channels: a channel itself or,
/// before the next channel, one of its children.
pub open spec fn channel_name_of(cs: Seq<Channel>, id: Seq<char>) -> Option<Seq<char>>
    decreases cs.len(),
{
    if cs.len() == 0 {
        None
    } else if cs[0].id@ == id {
        Some(cs[0].name@)
    } else {
        match child_name_of(cs[0], id) {
            Some(n) => Some(n),
            None => channel_name_of(cs.drop_first(), id),
        }
    }
}

pub open spec fn child_name_of(c: Channel, id: Seq<char>) -> Option<Seq<char>> {
    match c.children {
        Some(v) => first_child_name(v@, id),
        None => None,
    }
}

pub open spec fn first_child_name(v: Seq<crate::state::ChildChannel>, id: Seq<char>) -> Option<Seq<char>>
    decreases v.len(),
{
    if v.len() == 0 {
        None
    } else if v[0].id@ == id {
        Some(v[0].name@)
    } else {
        first_child_name(v.drop_first(), id)
    }
}

/// The guild whose mentions are resolved for the notification: the selected one when the
/// message came in it.
pub open spec fn notice_guild(s: AppView, m: Message) -> Option<Guild> {
    match s.selected_guild {
        Some(g) => if in_guild(m, g) {
            Some(g)
        } else {
            None
        },
        None => None,
    }
}

/// The message came in the given guild.
pub open spec fn in_guild(m: Message, g: Guild) -> bool {
    match m.guild_id {
        Some(gid) => gid@ == g.id@,
        None => false,
    }
}

/// The notice shown for a message that arrived outside the chat on screen.
pub open spec fn notice_fits(n: Notice, s: AppView, m: Message) -> bool {
    let is_dm = is_dm_channel(s.dms, m.channel_id@);
    &&& n.sender@ == (if s.notifs_display_username {
        m.author.username@
    } else {
        display_name(m.author)
    })
    &&& n.channel_id@ == m.channel_id@
    &&& n.is_dm == is_dm
    &&& n.discreet == s.discreet_notifs
    &&& n.body@ == (if s.discreet_notifs {
        if is_dm {
            "Sent you a DM"@
        } else {
            "Mentioned you in a channel"@
        }
    } else if m.content matches Some(c) && c@.len() > 0 {
        mapped_content(m.content->0@, m.mentions@, notice_guild(s, m))
    } else {
        "Sent an attachment"@
    })
    &&& crate::app::opt_view(n.guild_name) == (match m.guild_id {
        Some(gid) => guild_name_of(s.guilds, gid@),
        None => None,
    })
    &&& crate::app::opt_view(n.channel_name) == (if (match s.selected_guild {
        Some(g) => in_guild(m, g),
        None => false,
    }) {
        channel_name_of(s.channels, m.channel_id@)
    } else {
        None
    })
}

/// The message is shown in the chat on screen.
pub open spec fn arrives_in_chat(s: AppView, m: Message) -> bool {
    active_channel(s.state) == Some(m.channel_id@)
}

/// The message is worth a notification: it came in a conversation or mentions the user.
pub open spec fn concerns_user(s: AppView, m: Message) -> bool {
    is_dm_channel(s.dms, m.channel_id@) || mentions_user(m, s.current_user)
}

/// A notification is prepared for the message.
pub open spec fn notifies(s: AppView, m: Message) -> bool {
    !arrives_in_chat(s, m) && concerns_user(s, m) && !is_own(m, s.current_user) && !is_dnd(s)
}

/// The state after a message arrived.
pub open spec fn after_message_create(s: AppView, m: Message) -> AppView {
    let s2 = if arrives_in_chat(s, m) {
        AppView {
            user_names: s.user_names.insert(m.author.id@, m.author.username@),
            messages: sort_messages(s.messages.push(m)),
            selection_index: if s.selection_index > 0 {
                (s.selection_index + 1) as usize
            } else {
                s.selection_index
            },
            last_message_ids: s.last_message_ids.insert(m.channel_id@, m.id@),
            ..s
        }
    } else if concerns_user(s, m) && is_dm_channel(s.dms, m.channel_id@) {
        AppView {
            dms: dm_to_top(s.dms, m.channel_id@, m.id),
            last_message_ids: s.last_message_ids.insert(m.channel_id@, m.id@),
            ..s
        }
    } else {
        s
    };
    AppView { typing_users: s2.typing_users.remove((m.channel_id@, m.author.id@)), ..s2 }
}

/// A message's arrival does not overflow the selection.
pub open spec fn message_create_ok(s: AppView, m: Message) -> bool {
    arrives_in_chat(s, m) ==> s.selection_index < usize::MAX
}

proof fn lemma_insert_message_split(out: Seq<Message>, x: Message, p: int)
    requires
        0 <= p <= out.len(),
        forall|j: int| p <= j < out.len() ==> msg_key(#[trigger] out[j]) < msg_key(x),
    ensures
        insert_message(out, x) == insert_message(out.take(p), x) + out.skip(p),
    decreases out.len() - p,
{
    if p == out.len() {
        assert(out.take(p) =~= out);
        assert(insert_message(out, x) + out.skip(p) =~= insert_message(out, x));
    } else {
        lemma_insert_message_split(out.drop_last(), x, p);
        assert(out.drop_last().take(p) =~= out.take(p));
        assert((insert_message(out.take(p), x) + out.drop_last().skip(p)).push(out.last())
            =~= insert_message(out.take(p), x) + out.skip(p));
    }
}

fn msg_key_exec(m: &Message) -> (k: u64)
    ensures
        k == msg_key(*m),
{
    match parse_u64(m.id.as_str()) {
        Some(n) => n,
        None => 0,
    }
}

/// The messages ordered by falling id, equal ones in their given order.
pub fn sort_messages_exec(v: Vec<Message>) -> (r: Vec<Message>)
    ensures
        r@ == sort_messages(v@),
{
    let mut out: Vec<Message> = Vec::new();
    let mut rest = v;
    let ghost all = rest@;
    let n = rest.len();
    let mut i: usize = 0;
    assert(all.skip(0) =~= all);
    while rest.len() > 0
        invariant
            i + rest.len() == all.len(),
            all.len() == n,
            rest@ == all.skip(i as int),
            out@ == sort_messages(all.take(i as int)),
        decreases rest.len(),
    {
        let ghost before = rest@;
        let x = rest.remove(0);
        assert(x == before[0]);
        assert(before[0] == all[i as int]);
        assert(rest@ =~= all.skip(i as int + 1));
        let ghost t = all.take(i as int + 1);
        assert(t.drop_last() =~= all.take(i as int));
        assert(t.last() == x);
        let kx = msg_key_exec(&x);
        let mut p = out.len();
        while p > 0 && msg_key_exec(&out[p - 1]) < kx
            invariant
                p <= out.len(),
                kx == msg_key(x),
                forall|j: int| p <= j < out.len() ==> msg_key(#[trigger] out@[j]) < msg_key(x),
            decreases p,
        {
            p -= 1;
        }
        proof {
            lemma_insert_message_split(out@, x, p as int);
            if p > 0 {
                assert(out@.take(p as int).drop_last() =~= out@.take(p as int - 1));
            }
        }
        let ghost o = out@;
        out.insert(p, x);
        assert(out@ =~= o.take(p as int).push(x) + o.skip(p as int));
        i += 1;
    }
    assert(all.take(i as int) =~= all);
    out
}


pub proof fn lemma_mapped_content_same_guild(c: Seq<char>, ms: Seq<crate::api::User>, g1: Guild, g2: Guild)
    requires
        same_guild(g1, g2),
    ensures
        mapped_content(c, ms, Some(g1)) == mapped_content(c, ms, Some(g2)),
{
    assert((|id: Seq<char>| crate::api::role_name(g1.roles@, id)) =~= (|id: Seq<char>| crate::api::role_name(g2.roles@, id)));
}

/// Whether some conversation has the given id.
fn is_dm_exec(dms: &Vec<DM>, ch: &str) -> (r: bool)
    ensures
        r == is_dm_channel(dms@, ch@),
{
    let mut i: usize = 0;
    while i < dms.len()
        invariant
            i <= dms.len(),
            forall|j: int| 0 <= j < i ==> dms@[j].id@ != ch@,
        decreases dms.len() - i,
    {
        if str_eq(dms[i].id.as_str(), ch) {
            assert(dms@[i as int].id@ == ch@);
            return true;
        }
        i += 1;
    }
    false
}

/// Whether the message mentions the given user.
fn mentions_exec(m: &Message, me: &Option<crate::api::User>) -> (r: bool)
    ensures
        r == mentions_user(*m, *me),
{
    match me {
        None => false,
        Some(u) => {
            let mut i: usize = 0;
            while i < m.mentions.len()
                invariant
                    i <= m.mentions.len(),
                    *me == Some(*u),
                    forall|j: int| 0 <= j < i ==> m.mentions@[j].id@ != u.id@,
                decreases m.mentions.len() - i,
            {
                if str_eq(m.mentions[i].id.as_str(), u.id.as_str()) {
                    assert(m.mentions@[i as int].id@ == u.id@);
                    return true;
                }
                i += 1;
            }
            false
        },
    }
}

/// The name of the first known guild with the given id.
fn guild_name_exec(gs: &Vec<crate::api::PartialGuild>, id: &str) -> (r: Option<String>)
    ensures
        crate::app::opt_view(r) == guild_name_of(gs@, id@),
{
    let mut i: usize = 0;
    assert(gs@.skip(0) =~= gs@);
    while i < gs.len()
        invariant
            i <= gs.len(),
            guild_name_of(gs@, id@) == guild_name_of(gs@.skip(i as int), id@),
        decreases gs.len() - i,
    {
        assert(gs@.skip(i as int)[0] == gs@[i as int]);
        assert(gs@.skip(i as int).drop_first() =~= gs@.skip(i as int + 1));
        if str_eq(gs[i].id.as_str(), id) {
            return Some(gs[i].name.clone());
        }
        i += 1;
    }
    None
}

/// The name of the loaded channel (or child channel) with the given id.
fn channel_name_exec(cs: &Vec<Channel>, id: &str) -> (r: Option<String>)
    ensures
        crate::app::opt_view(r) == channel_name_of(cs@, id@),
{
    let mut i: usize = 0;
    assert(cs@.skip(0) =~= cs@);
    while i < cs.len()
        invariant
            i <= cs.len(),
            channel_name_of(cs@, id@) == channel_name_of(cs@.skip(i as int), id@),
        decreases cs.len() - i,
    {
        assert(cs@.skip(i as int)[0] == cs@[i as int]);
        assert(cs@.skip(i as int).drop_first() =~= cs@.skip(i as int + 1));
        if str_eq(cs[i].id.as_str(), id) {
            return Some(cs[i].name.clone());
        }
        if let Some(children) = &cs[i].children {
            let mut k: usize = 0;
            assert(children@.skip(0) =~= children@);
            assert(child_name_of(cs@[i as int], id@) == first_child_name(children@, id@));
            while k < children.len()
                invariant
                    k <= children.len(),
                    channel_name_of(cs@, id@) == (match first_child_name(children@, id@) {
                        Some(n) => Some(n),
                        None => channel_name_of(cs@.skip(i as int + 1), id@),
                    }),
                    first_child_name(children@, id@) == first_child_name(children@.skip(k as int), id@),
                decreases children.len() - k,
            {
                assert(children@.skip(k as int)[0] == children@[k as int]);
                assert(children@.skip(k as int).drop_first() =~= children@.skip(k as int + 1));
                if str_eq(children[k].id.as_str(), id) {
                    return Some(children[k].name.clone());
                }
                k += 1;
            }
        }
        i += 1;
    }
    None
}

impl App {
    /// A message arrived. In the chat on screen it joins the messages (newest first), its
    /// author's name is remembered, a selected message keeps its place and it is
    /// acknowledged. Elsewhere, a message in a conversation or mentioning the user gets a
    /// notification unless the user wrote it or does not want to be disturbed, and a
    /// conversation with a new message moves to the top. The author no longer types there.
    pub fn gateway_message_create(&mut self, msg: Message) -> (effects: Vec<Effect>)
        requires
            message_create_ok(old(self)@, msg),
        ensures
            final(self)@ == after_message_create(old(self)@, msg),
            arrives_in_chat(old(self)@, msg) ==> effects@ == seq![Effect::AckMessage { channel_id: msg.channel_id, message_id: msg.id }],
            notifies(old(self)@, msg) ==> (effects@.len() == 1 && (effects@[0] matches Effect::Notify(n) && notice_fits(n, old(self)@, msg))),
            !arrives_in_chat(old(self)@, msg) && !notifies(old(self)@, msg) ==> effects@.len() == 0,
    {
        let ghost m = msg;
        let mut effects: Vec<Effect> = Vec::new();
        let in_chat = match &self.state {
            AppState::Chatting(ch) => str_eq(ch.get_id().as_str(), msg.channel_id.as_str()),
            _ => false,
        };
        assert(in_chat == arrives_in_chat(old(self)@, m));
        let channel_id = msg.channel_id.clone();
        let author_id = msg.author.id.clone();
        if in_chat {
            self.user_names.insert(msg.author.id.clone(), msg.author.username.clone());
            let id = msg.id.clone();
            let mut msgs: Vec<Message> = Vec::new();
            std::mem::swap(&mut msgs, &mut self.messages);
            msgs.push(msg);
            self.messages = sort_messages_exec(msgs);
            if self.selection_index > 0 {
                self.selection_index += 1;
            }
            self.last_message_ids.insert(channel_id.clone(), id.clone());
            effects.push(Effect::AckMessage { channel_id: channel_id.clone(), message_id: id });
        } else {
            let is_dm = is_dm_exec(&self.dms, msg.channel_id.as_str());
            let is_mentioned = mentions_exec(&msg, &self.current_user);
            if is_dm || is_mentioned {
                let is_self = match &self.current_user {
                    Some(u) => str_eq(u.id.as_str(), msg.author.id.as_str()),
                    None => false,
                };
                if !is_self {
                    let dnd = self.is_invisible_dnd || match &self.current_user {
                        Some(u) => match self.user_statuses.get(u.id.as_str()) {
                            Some(st) => str_eq(st.as_str(), "dnd"),
                            None => false,
                        },
                        None => false,
                    };
                    assert(dnd == is_dnd(old(self)@));
                    if !dnd {
                        let notice = self.make_notice(&msg, is_dm);
                        effects.push(Effect::Notify(notice));
                    }
                }
                if is_dm {
                    self.dm_to_top(msg.channel_id.as_str(), msg.id.clone());
                    self.last_message_ids.insert(channel_id.clone(), msg.id.clone());
                }
            }
        }
        self.typing_users.remove(channel_id.as_str(), author_id.as_str());
        assert(self@ =~= after_message_create(old(self)@, m));
        effects
    }

    /// The notice for a message that arrived outside the chat on screen.
    fn make_notice(&self, msg: &Message, is_dm: bool) -> (n: Notice)
        requires
            is_dm == is_dm_channel(self@.dms, msg.channel_id@),
        ensures
            notice_fits(n, self@, *msg),
    {
        let sender = if self.notifs_display_username {
            msg.author.username.clone()
        } else {
            user_display_name(&msg.author)
        };
        let body = if self.discreet_notifs {
            if is_dm {
                lit("Sent you a DM")
            } else {
                lit("Mentioned you in a channel")
            }
        } else {
            let has_text = match &msg.content {
                Some(c) => !c.as_str().is_empty(),
                None => false,
            };
            if has_text {
                let guild = match &self.selected_guild {
                    Some(g) => match &msg.guild_id {
                        Some(gid) => if str_eq(gid.as_str(), g.id.as_str()) {
                            Some(g.copy())
                        } else {
                            None
                        },
                        None => None,
                    },
                    None => None,
                };
                proof {
                    if let Some(g) = self@.selected_guild {
                        if in_guild(*msg, g) {
                            lemma_mapped_content_same_guild(msg.content->0@, msg.mentions@, guild->0, g);
                        }
                    }
                }
                msg.map_mentions(guild)
            } else {
                lit("Sent an attachment")
            }
        };
        let guild_name = match &msg.guild_id {
            Some(gid) => guild_name_exec(&self.guilds, gid.as_str()),
            None => None,
        };
        let in_selected = match &msg.guild_id {
            Some(gid) => match &self.selected_guild {
                Some(g) => str_eq(g.id.as_str(), gid.as_str()),
                None => false,
            },
            None => false,
        };
        let channel_name = if in_selected {
            channel_name_exec(&self.channels, msg.channel_id.as_str())
        } else {
            None
        };
        let n = Notice {
            sender,
            body,
            channel_id: msg.channel_id.clone(),
            is_dm,
            discreet: self.discreet_notifs,
            guild_name,
            channel_name,
        };
        assert(n.sender@ == (if self@.notifs_display_username {
            msg.author.username@
        } else {
            display_name(msg.author)
        }));
        assert(crate::app::opt_view(n.guild_name) == (match msg.guild_id {
            Some(gid) => guild_name_of(self@.guilds, gid@),
            None => None,
        }));
        n
    }

    /// Moves the first conversation with id `ch` to the top, with `msg_id` as its last message.
    fn dm_to_top(&mut self, ch: &str, msg_id: String)
        ensures
            final(self)@ == (AppView { dms: dm_to_top(old(self)@.dms, ch@, msg_id), ..old(self)@ }),
    {
        let mut i: usize = 0;
        assert(self.dms@.skip(0) =~= self.dms@);
        while i < self.dms.len()
            invariant
                i <= self.dms.len(),
                dm_index(self.dms@, ch@) == (match dm_index(self.dms@.skip(i as int), ch@) {
                    Some(k) => Some(k + i),
                    None => None::<int>,
                }),
            ensures
                i <= self.dms.len(),
                i < self.dms.len() ==> self.dms@[i as int].id@ == ch@,
                dm_index(self.dms@, ch@) == (match dm_index(self.dms@.skip(i as int), ch@) {
                    Some(k) => Some(k + i),
                    None => None::<int>,
                }),
            decreases self.dms.len() - i,
        {
            assert(self.dms@.skip(i as int)[0] == self.dms@[i as int]);
            assert(self.dms@.skip(i as int).drop_first() =~= self.dms@.skip(i as int + 1));
            if str_eq(self.dms[i].id.as_str(), ch) {
                break;
            }
            i += 1;
        }
        if i < self.dms.len() {
            assert(self.dms@.skip(i as int)[0] == self.dms@[i as int]);
            let mut dms: Vec<DM> = Vec::new();
            std::mem::swap(&mut dms, &mut self.dms);
            let ghost before = dms@;
            let mut dm = dms.remove(i);
            dm.last_message_id = Some(msg_id);
            dms.insert(0, dm);
            assert(dms@ =~= seq![DM { last_message_id: Some(msg_id), ..before[i as int] }] + before.remove(i as int));
            self.dms = dms;
        } else {
            assert(self.dms@.skip(i as int).len() == 0);
        }
        assert(self@ =~= (AppView { dms: dm_to_top(old(self)@.dms, ch@, msg_id), ..old(self)@ }));
    }
}

/// The title and text of a notification: discreet ones name the sender only; others from a
/// guild channel name the guild and the channel (`#name`) when known.
pub open spec fn notification_summary(n: Notice, fetched: Option<Seq<char>>) -> Seq<char> {
    if n.discreet || n.is_dm {
        n.sender@
    } else {
        let channel = match crate::app::opt_view(n.channel_name) {
            Some(c) => "#"@ + c,
            None => match fetched {
                Some(c) => "#"@ + c,
                None => Seq::empty(),
            },
        };
        match n.guild_name {
            Some(g) => if channel.len() > 0 {
                n.sender@ + " in "@ + g@ + " ("@ + channel + ")"@
            } else {
                n.sender@ + " in "@ + g@
            },
            None => if channel.len() > 0 {
                n.sender@ + " in "@ + channel
            } else {
                n.sender@
            },
        }
    }
}

impl Notice {
    /// Whether the channel's name has to be asked of the service for the title.
    pub fn needs_channel_name(&self) -> (r: bool)
        ensures
            r == (!self.discreet && !self.is_dm && self.channel_name is None),
    {
        !self.discreet && !self.is_dm && self.channel_name.is_none()
    }

    /// The title of the notification, given the channel's name as the service gave it when
    /// it was not loaded.
    pub fn summary(&self, fetched: Option<String>) -> (r: String)
        ensures
            r@ == notification_summary(*self, crate::app::opt_view(fetched)),
    {
        if self.discreet || self.is_dm {
            return self.sender.clone();
        }
        let channel = match &self.channel_name {
            Some(c) => concat("#", c.as_str()),
            None => match &fetched {
                Some(c) => concat("#", c.as_str()),
                None => String::new(),
            },
        };
        let has_channel = !channel.as_str().is_empty();
        let mut r = self.sender.clone();
        match &self.guild_name {
            Some(g) => {
                push_all(&mut r, " in ");
                push_all(&mut r, g.as_str());
                if has_channel {
                    push_all(&mut r, " (");
                    push_all(&mut r, channel.as_str());
                    push_all(&mut r, ")");
                }
            },
            None => {
                if has_channel {
                    push_all(&mut r, " in ");
                    push_all(&mut r, channel.as_str());
                }
            },
        }
        r
    }
}

} // verus!
