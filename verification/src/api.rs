use vstd::prelude::*;

use crate::text::{
    all_digits, all_digits_exec, string_views, chars_of, find_first, find_from, join_seq, join_strings,
    lemma_find_first_matches, lemma_skip_skip, push_all, replace_all, replace_all_exec, seq_eq,
    string_of,
};

verus! {

// ---------------------------------------------------------------------------
// Data model of the chat service
// ---------------------------------------------------------------------------

#[derive(Debug, Clone, PartialEq)]
pub struct PartialEmoji {
    pub name: String,
    pub animated: Option<bool>,
}

#[derive(Debug, Clone, PartialEq)]
pub struct Activity {
    pub name: Option<String>,
    pub state: Option<String>,
    pub emoji: Option<PartialEmoji>,
    /// The activity's kind (4 is a custom status).
    pub activity_type: usize,
}

#[derive(Debug, Clone, PartialEq)]
pub struct CustomStatus {
    pub text: Option<String>,
    pub emoji_id: Option<String>,
    pub emoji_name: Option<String>,
    pub expires_at: Option<u128>,
}

#[derive(Debug, Clone, PartialEq)]
pub struct UserSettings {
    pub custom_status: Option<CustomStatus>,
}

#[derive(Debug, Clone, PartialEq)]
pub struct User {
    pub id: String,
    pub username: String,
    pub global_name: Option<String>,
}

#[derive(Debug, Clone, PartialEq)]
pub struct DM {
    pub id: String,
    /// 1 for a one-to-one conversation, 3 for a group.
    pub channel_type: u8,
    pub last_message_id: Option<String>,
    pub recipients: Vec<User>,
    pub name: Option<String>,
}

#[derive(Debug, Clone, PartialEq)]
pub struct GuildMember {
    pub user: User,
    pub nick: Option<String>,
    pub roles: Vec<String>,
}

#[derive(Debug, Clone, PartialEq)]
pub struct PartialGuild {
    pub id: String,
    pub name: String,
}

#[derive(Debug, Clone, PartialEq)]
pub struct Role {
    pub id: String,
    pub name: String,
}

#[derive(Debug, Clone, PartialEq)]
pub struct Guild {
    pub id: String,
    pub name: String,
    pub roles: Vec<Role>,
}

#[derive(Debug, Clone, PartialEq)]
pub struct Message {
    pub id: String,
    pub channel_id: String,
    pub guild_id: Option<String>,
    pub author: User,
    pub content: Option<String>,
    pub timestamp: String,
    pub mentions: Vec<User>,
}

#[derive(Debug, Clone, PartialEq)]
pub struct PartialMessage {
    pub id: String,
    pub channel_id: String,
    pub author: Option<User>,
    pub content: Option<String>,
    pub timestamp: Option<String>,
}

#[derive(Debug, Clone, PartialEq)]
pub struct ClientStatus {
    pub desktop: Option<String>,
    pub mobile: Option<String>,
    pub web: Option<String>,
}

#[derive(Debug, Clone, PartialEq)]
pub struct UserId {
    pub id: String,
}

#[derive(Debug, Clone, PartialEq)]
pub struct Presence {
    pub user: UserId,
    pub status: String,
    pub activities: Vec<Activity>,
    pub client_status: ClientStatus,
}

#[derive(Debug, Clone, PartialEq)]
pub struct Emoji {
    pub id: String,
    pub name: String,
    pub animated: Option<bool>,
}

// ---------------------------------------------------------------------------
// Copies
// ---------------------------------------------------------------------------

/// The two conversations hold the same data.
pub open spec fn same_dm(a: DM, b: DM) -> bool {
    a.id == b.id && a.channel_type == b.channel_type && a.last_message_id == b.last_message_id
        && a.recipients@ == b.recipients@ && a.name == b.name
}

/// The two guilds hold the same data.
pub open spec fn same_guild(a: Guild, b: Guild) -> bool {
    a.id == b.id && a.name == b.name && a.roles@ == b.roles@
}

/// The two messages hold the same data.
pub open spec fn same_message(a: Message, b: Message) -> bool {
    a.id == b.id && a.channel_id == b.channel_id && a.guild_id == b.guild_id && a.author == b.author
        && a.content == b.content && a.timestamp == b.timestamp && a.mentions@ == b.mentions@
}

impl User {
    pub fn copy(&self) -> (r: User)
        ensures
            r == *self,
    {
        User { id: self.id.clone(), username: self.username.clone(), global_name: self.global_name.clone() }
    }
}

impl Role {
    pub fn copy(&self) -> (r: Role)
        ensures
            r == *self,
    {
        Role { id: self.id.clone(), name: self.name.clone() }
    }
}

impl PartialGuild {
    pub fn copy(&self) -> (r: PartialGuild)
        ensures
            r == *self,
    {
        PartialGuild { id: self.id.clone(), name: self.name.clone() }
    }
}

/// A copy of a list of users.
pub fn copy_users(v: &Vec<User>) -> (r: Vec<User>)
    ensures
        r@ == v@,
{
    let mut r: Vec<User> = Vec::new();
    let mut i: usize = 0;
    while i < v.len()
        invariant
            i <= v.len(),
            r@ == v@.take(i as int),
        decreases v.len() - i,
    {
        r.push(v[i].copy());
        assert(r@ =~= v@.take(i as int + 1));
        i += 1;
    }
    assert(v@.take(v.len() as int) =~= v@);
    r
}

impl DM {
    pub fn copy(&self) -> (r: DM)
        ensures
            same_dm(r, *self),
    {
        DM {
            id: self.id.clone(),
            channel_type: self.channel_type,
            last_message_id: self.last_message_id.clone(),
            recipients: copy_users(&self.recipients),
            name: self.name.clone(),
        }
    }
}

impl Guild {
    pub fn copy(&self) -> (r: Guild)
        ensures
            same_guild(r, *self),
    {
        let mut roles: Vec<Role> = Vec::new();
        let mut i: usize = 0;
        while i < self.roles.len()
            invariant
                i <= self.roles.len(),
                roles@ == self.roles@.take(i as int),
            decreases self.roles.len() - i,
        {
            roles.push(self.roles[i].copy());
            assert(roles@ =~= self.roles@.take(i as int + 1));
            i += 1;
        }
        assert(self.roles@.take(self.roles.len() as int) =~= self.roles@);
        Guild { id: self.id.clone(), name: self.name.clone(), roles }
    }
}

impl Message {
    pub fn copy(&self) -> (r: Message)
        ensures
            same_message(r, *self),
    {
        Message {
            id: self.id.clone(),
            channel_id: self.channel_id.clone(),
            guild_id: self.guild_id.clone(),
            author: self.author.copy(),
            content: self.content.clone(),
            timestamp: self.timestamp.clone(),
            mentions: copy_users(&self.mentions),
        }
    }
}

// ---------------------------------------------------------------------------
// Display names
// ---------------------------------------------------------------------------

/// The name under which a user is shown: the global name, or else the username.
pub open spec fn display_name(u: User) -> Seq<char> {
    match u.global_name {
        Some(g) => g@,
        None => u.username@,
    }
}

/// The shown names of the given users, in order.
pub open spec fn display_names(us: Seq<User>) -> Seq<Seq<char>> {
    Seq::new(us.len(), |i: int| display_name(us[i]))
}

/// What `DM::get_name` gives for a conversation.
pub open spec fn dm_name(dm: DM) -> Seq<char> {
    if dm.channel_type == 1 && dm.recipients@.len() > 0 {
        let u = dm.recipients@[0];
        match u.global_name {
            Some(n) => n@ + " ("@ + u.username@ + ")"@,
            None => u.username@,
        }
    } else {
        let users = join_seq(display_names(dm.recipients@), ", "@);
        match dm.name {
            Some(n) => n@ + " ("@ + users + ")"@,
            None => users,
        }
    }
}

/// A string holding the characters of `s`.
pub fn lit(s: &str) -> (r: String)
    ensures
        r@ == s@,
{
    let mut r = String::new();
    push_all(&mut r, s);
    assert(Seq::<char>::empty() + s@ =~= s@);
    r
}

/// The display name of a user, as a string.
pub fn user_display_name(u: &User) -> (r: String)
    ensures
        r@ == display_name(*u),
{
    match &u.global_name {
        Some(g) => g.clone(),
        None => u.username.clone(),
    }
}

impl DM {
    /// The name shown for a conversation: for a one-to-one conversation the partner's
    /// global name with the username in brackets (or the username alone); otherwise the
    /// participants' names joined by ", ", after the conversation's own name if it has one.
    pub fn get_name(&self) -> (r: String)
        ensures
            r@ == dm_name(*self),
    {
        if self.channel_type == 1 && self.recipients.len() > 0 {
            let user = &self.recipients[0];
            match &user.global_name {
                Some(name) => {
                    let mut r = name.clone();
                    push_all(&mut r, " (");
                    push_all(&mut r, user.username.as_str());
                    push_all(&mut r, ")");
                    r
                },
                None => user.username.clone(),
            }
        } else {
            let mut names: Vec<String> = Vec::new();
            let mut i: usize = 0;
            while i < self.recipients.len()
                invariant
                    i <= self.recipients.len(),
                    names.len() == i,
                    string_views(names@) == display_names(self.recipients@.take(i as int)),
                decreases self.recipients.len() - i,
            {
                let n = user_display_name(&self.recipients[i]);
                let ghost prev = names@;
                names.push(n);
                assert forall|j: int| 0 <= j < i + 1 implies #[trigger] string_views(names@)[j]
                    == display_names(self.recipients@.take(i as int + 1))[j] by {
                    if j < i {
                        assert(string_views(prev)[j] == display_names(self.recipients@.take(i as int))[j]);
                        assert(names@[j] == prev[j]);
                        assert(self.recipients@.take(i as int)[j] == self.recipients@.take(i as int + 1)[j]);
                    } else {
                        assert(names@[j]@ == display_name(self.recipients@[i as int]));
                    }
                }
                assert(string_views(names@) =~= display_names(self.recipients@.take(i as int + 1)));
                i += 1;
            }
            assert(self.recipients@.take(self.recipients.len() as int) =~= self.recipients@);
            let users = join_strings(&names, ", ");
            match &self.name {
                Some(name) => {
                    let mut r = name.clone();
                    push_all(&mut r, " (");
                    push_all(&mut r, users.as_str());
                    push_all(&mut r, ")");
                    r
                },
                None => users,
            }
        }
    }
}

// ---------------------------------------------------------------------------
// Mentions
// ---------------------------------------------------------------------------

/// The candidate ids that the scan for `prefix ... >` finds in `s`, in order: after each
/// `prefix`, the text up to the next `>` is taken when it is all digits, and the scan goes
/// on after that `>`; it stops where no `prefix`, or no `>` after it, is left.
pub open spec fn scan_ids(s: Seq<char>, prefix: Seq<char>) -> Seq<Seq<char>>
    decreases s.len(),
{
    if prefix.len() == 0 {
        Seq::empty()
    } else {
        match find_first(s, prefix) {
            None => Seq::empty(),
            Some(i) => {
                proof {
                    lemma_find_first_matches(s, prefix);
                }
                let after = s.skip(i + prefix.len());
                match find_first(after, seq!['>']) {
                    None => Seq::empty(),
                    Some(j) => {
                        proof {
                            lemma_find_first_matches(after, seq!['>']);
                        }
                        let id = after.take(j);
                        let found = if all_digits(id) {
                            seq![id]
                        } else {
                            Seq::empty()
                        };
                        found + scan_ids(after.skip(j + 1), prefix)
                    }
                }
            }
        }
    }
}

/// `s` without repeated items, each kept where it first occurs.
pub open spec fn dedup(s: Seq<Seq<char>>) -> Seq<Seq<char>>
    decreases s.len(),
{
    if s.len() == 0 {
        Seq::empty()
    } else {
        let d = dedup(s.drop_last());
        if d.contains(s.last()) {
            d
        } else {
            d.push(s.last())
        }
    }
}

/// The shown name of the last mentioned user with the given id.
pub open spec fn mention_name(ms: Seq<User>, id: Seq<char>) -> Option<Seq<char>>
    decreases ms.len(),
{
    if ms.len() == 0 {
        None
    } else if ms.last().id@ == id {
        Some(display_name(ms.last()))
    } else {
        mention_name(ms.drop_last(), id)
    }
}

/// The name of the last role with the given id.
pub open spec fn role_name(roles: Seq<Role>, id: Seq<char>) -> Option<Seq<char>>
    decreases roles.len(),
{
    if roles.len() == 0 {
        None
    } else if roles.last().id@ == id {
        Some(roles.last().name@)
    } else {
        role_name(roles.drop_last(), id)
    }
}

/// Each id that has a name, in turn, has every `open id >` in `s` replaced by `@name`.
pub open spec fn fold_replace(
    s: Seq<char>,
    ids: Seq<Seq<char>>,
    names: spec_fn(Seq<char>) -> Option<Seq<char>>,
    open: Seq<char>,
) -> Seq<char>
    decreases ids.len(),
{
    if ids.len() == 0 {
        s
    } else {
        let prev = fold_replace(s, ids.drop_last(), names, open);
        match names(ids.last()) {
            Some(n) => replace_all(prev, open + ids.last() + seq!['>'], seq!['@'] + n),
            None => prev,
        }
    }
}

pub open spec fn user_open() -> Seq<char> {
    seq!['<', '@']
}

pub open spec fn role_open() -> Seq<char> {
    seq!['<', '@', '&']
}

/// The text of a message with user mentions `<@id>` replaced by `@name` for the users the
/// message mentions, and, given the guild, role mentions `<@&id>` by `@role`.
pub open spec fn mapped_content(content: Seq<char>, mentions: Seq<User>, guild: Option<Guild>) -> Seq<
    char,
> {
    let users = fold_replace(
        content,
        dedup(scan_ids(content, user_open())),
        |id: Seq<char>| mention_name(mentions, id),
        user_open(),
    );
    match guild {
        None => users,
        Some(g) => fold_replace(
            users,
            dedup(scan_ids(content, role_open())),
            |id: Seq<char>| role_name(g.roles@, id),
            role_open(),
        ),
    }
}

pub open spec fn vviews(v: Seq<Vec<char>>) -> Seq<Seq<char>> {
    v.map_values(|x: Vec<char>| x@)
}

/// The ids found by the scan for `prefix ... >` in `s`.
fn scan_ids_exec(s: &Vec<char>, prefix: &Vec<char>) -> (r: Vec<Vec<char>>)
    requires
        prefix.len() > 0,
    ensures
        vviews(r@) == scan_ids(s@, prefix@),
{
    let mut ids: Vec<Vec<char>> = Vec::new();
    let mut pos: usize = 0;
    let mut gt: Vec<char> = Vec::new();
    gt.push('>');
    assert(gt@ =~= seq!['>']);
    assert(s@.skip(0) =~= s@);
    while pos <= s.len()
        invariant
            prefix.len() > 0,
            gt@ == seq!['>'],
            pos <= s.len(),
            vviews(ids@) + scan_ids(s@.skip(pos as int), prefix@) == scan_ids(s@, prefix@),
        decreases s.len() - pos,
    {
        let ghost rest = s@.skip(pos as int);
        match find_from(s, prefix, pos) {
            None => {
                assert(vviews(ids@) + Seq::empty() =~= vviews(ids@));
                return ids;
            },
            Some(i) => {
                proof {
                    lemma_find_first_matches(rest, prefix@);
                    lemma_skip_skip(s@, pos as int, (i - pos) + prefix.len());
                }
                let start = i + prefix.len();
                let ghost after = rest.skip((i - pos) + prefix.len());
                assert(after == s@.skip(start as int));
                match find_from(s, &gt, start) {
                    None => {
                        assert(vviews(ids@) + Seq::empty() =~= vviews(ids@));
                        return ids;
                    },
                    Some(e) => {
                        proof {
                            lemma_find_first_matches(after, seq!['>']);
                            lemma_skip_skip(s@, start as int, (e - start) + 1);
                        }
                        let ghost id_spec = after.take(e - start);
                        assert(id_spec =~= s@.subrange(start as int, e as int));
                        let ghost before = vviews(ids@);
                        if all_digits_exec(s, start, e) {
                            let mut id: Vec<char> = Vec::new();
                            let mut k = start;
                            while k < e
                                invariant
                                    start <= k <= e <= s.len(),
                                    id@ == s@.subrange(start as int, k as int),
                                decreases e - k,
                            {
                                id.push(s[k]);
                                assert(s@.subrange(start as int, k as int + 1) =~= s@.subrange(
                                    start as int,
                                    k as int,
                                ).push(s@[k as int]));
                                k += 1;
                            }
                            ids.push(id);
                            assert(vviews(ids@) =~= before + seq![id_spec]);
                            assert(before + (seq![id_spec] + scan_ids(
                                after.skip(e - start + 1),
                                prefix@,
                            )) =~= vviews(ids@) + scan_ids(after.skip(e - start + 1), prefix@));
                        } else {
                            assert(before + (Seq::<Seq<char>>::empty() + scan_ids(
                                after.skip(e - start + 1),
                                prefix@,
                            )) =~= vviews(ids@) + scan_ids(after.skip(e - start + 1), prefix@));
                        }
                        pos = e + 1;
                    },
                }
            },
        }
    }
    ids
}

/// Whether `x` is one of the items of `v`.
pub(crate) fn contains_vec(v: &Vec<Vec<char>>, x: &Vec<char>) -> (r: bool)
    ensures
        r == vviews(v@).contains(x@),
{
    let mut i: usize = 0;
    while i < v.len()
        invariant
            i <= v.len(),
            forall|j: int| 0 <= j < i ==> v@[j]@ != x@,
        decreases v.len() - i,
    {
        if seq_eq(&v[i], x) {
            assert(vviews(v@)[i as int] == x@);
            return true;
        }
        i += 1;
    }
    assert forall|j: int| 0 <= j < vviews(v@).len() implies vviews(v@)[j] != x@ by {
        assert(vviews(v@)[j] == v@[j]@);
    }
    false
}

/// The items of `v` without repeats, each kept where it first occurs.
pub(crate) fn dedup_exec(v: &Vec<Vec<char>>) -> (r: Vec<Vec<char>>)
    ensures
        vviews(r@) == dedup(vviews(v@)),
{
    let mut r: Vec<Vec<char>> = Vec::new();
    let mut i: usize = 0;
    while i < v.len()
        invariant
            i <= v.len(),
            vviews(r@) == dedup(vviews(v@).take(i as int)),
        decreases v.len() - i,
    {
        let ghost t = vviews(v@).take(i as int + 1);
        assert(t.drop_last() =~= vviews(v@).take(i as int));
        assert(t.last() == v@[i as int]@);
        if !contains_vec(&r, &v[i]) {
            let x = v[i].clone();
            r.push(x);
            assert(vviews(r@) =~= dedup(vviews(v@).take(i as int)).push(v@[i as int]@));
        }
        i += 1;
    }
    assert(vviews(v@).take(v.len() as int) =~= vviews(v@));
    r
}

/// The shown name of the last user in `ms` whose id is `id`.
fn mention_name_exec(ms: &Vec<User>, id: &Vec<char>) -> (r: Option<Vec<char>>)
    ensures
        match r {
            Some(n) => mention_name(ms@, id@) == Some(n@),
            None => mention_name(ms@, id@) is None,
        },
{
    let mut found: Option<Vec<char>> = None;
    let mut i: usize = 0;
    while i < ms.len()
        invariant
            i <= ms.len(),
            match found {
                Some(n) => mention_name(ms@.take(i as int), id@) == Some(n@),
                None => mention_name(ms@.take(i as int), id@) is None,
            },
        decreases ms.len() - i,
    {
        let ghost t = ms@.take(i as int + 1);
        assert(t.drop_last() =~= ms@.take(i as int));
        let uid = chars_of(ms[i].id.as_str());
        if seq_eq(&uid, id) {
            let n = user_display_name(&ms[i]);
            found = Some(chars_of(n.as_str()));
        }
        i += 1;
    }
    assert(ms@.take(ms.len() as int) =~= ms@);
    found
}

/// The name of the last role in `roles` whose id is `id`.
fn role_name_exec(roles: &Vec<Role>, id: &Vec<char>) -> (r: Option<Vec<char>>)
    ensures
        match r {
            Some(n) => role_name(roles@, id@) == Some(n@),
            None => role_name(roles@, id@) is None,
        },
{
    let mut found: Option<Vec<char>> = None;
    let mut i: usize = 0;
    while i < roles.len()
        invariant
            i <= roles.len(),
            match found {
                Some(n) => role_name(roles@.take(i as int), id@) == Some(n@),
                None => role_name(roles@.take(i as int), id@) is None,
            },
        decreases roles.len() - i,
    {
        let ghost t = roles@.take(i as int + 1);
        assert(t.drop_last() =~= roles@.take(i as int));
        let rid = chars_of(roles[i].id.as_str());
        if seq_eq(&rid, id) {
            found = Some(chars_of(roles[i].name.as_str()));
        }
        i += 1;
    }
    assert(roles@.take(roles.len() as int) =~= roles@);
    found
}

/// `open` followed by `id` and `>`.
pub(crate) fn mention_pattern(open: &Vec<char>, id: &Vec<char>) -> (r: Vec<char>)
    ensures
        r@ == open@ + id@ + seq!['>'],
{
    let mut r = open.clone();
    let mut k: usize = 0;
    while k < id.len()
        invariant
            k <= id.len(),
            r@ == open@ + id@.take(k as int),
        decreases id.len() - k,
    {
        r.push(id[k]);
        assert(open@ + id@.take(k as int + 1) =~= (open@ + id@.take(k as int)).push(id@[k as int]));
        k += 1;
    }
    r.push('>');
    assert(id@.take(id.len() as int) =~= id@);
    assert(r@ =~= open@ + id@ + seq!['>']);
    r
}

/// `@` followed by `name`.
pub(crate) fn at_name(name: &Vec<char>) -> (r: Vec<char>)
    ensures
        r@ == seq!['@'] + name@,
{
    let mut r: Vec<char> = Vec::new();
    r.push('@');
    let mut k: usize = 0;
    while k < name.len()
        invariant
            k <= name.len(),
            r@ == seq!['@'] + name@.take(k as int),
        decreases name.len() - k,
    {
        r.push(name[k]);
        assert(seq!['@'] + name@.take(k as int + 1) =~= (seq!['@'] + name@.take(k as int)).push(
            name@[k as int],
        ));
        k += 1;
    }
    assert(name@.take(name.len() as int) =~= name@);
    r
}

impl Message {
    /// The message text for display, with mentions of users (`<@id>`) and, when the guild
    /// is given, of roles (`<@&id>`) replaced by `@name`; `(*non-text*)` when the message
    /// has no text.
    pub fn map_mentions(&self, guild: Option<Guild>) -> (r: String)
        ensures
            r@ == match self.content {
                None => "(*non-text*)"@,
                Some(c) => mapped_content(c@, self.mentions@, guild),
            },
    {
        let content = match &self.content {
            None => {
                return lit("(*non-text*)");
            },
            Some(c) => chars_of(c.as_str()),
        };
        let mut open: Vec<char> = Vec::new();
        open.push('<');
        open.push('@');
        assert(open@ =~= user_open());
        let ids = dedup_exec(&scan_ids_exec(&content, &open));
        let ghost names = |id: Seq<char>| mention_name(self.mentions@, id);
        let mut out = content.clone();
        let mut i: usize = 0;
        while i < ids.len()
            invariant
                i <= ids.len(),
                open@ == user_open(),
                names == |id: Seq<char>| mention_name(self.mentions@, id),
                out@ == fold_replace(content@, vviews(ids@).take(i as int), names, open@),
            decreases ids.len() - i,
        {
            let ghost t = vviews(ids@).take(i as int + 1);
            assert(t.drop_last() =~= vviews(ids@).take(i as int));
            assert(t.last() == ids@[i as int]@);
            if let Some(name) = mention_name_exec(&self.mentions, &ids[i]) {
                let pat = mention_pattern(&open, &ids[i]);
                let rep = at_name(&name);
                out = replace_all_exec(&out, &pat, &rep);
            }
            i += 1;
        }
        assert(vviews(ids@).take(ids.len() as int) =~= vviews(ids@));
        match guild {
            None => string_of(&out),
            Some(g) => {
                let mut ropen: Vec<char> = Vec::new();
                ropen.push('<');
                ropen.push('@');
                ropen.push('&');
                assert(ropen@ =~= role_open());
                let rids = dedup_exec(&scan_ids_exec(&content, &ropen));
                let ghost rnames = |id: Seq<char>| role_name(g.roles@, id);
                let ghost users = out@;
                let mut j: usize = 0;
                while j < rids.len()
                    invariant
                        j <= rids.len(),
                        ropen@ == role_open(),
                        rnames == |id: Seq<char>| role_name(g.roles@, id),
                        out@ == fold_replace(users, vviews(rids@).take(j as int), rnames, ropen@),
                    decreases rids.len() - j,
                {
                    let ghost t = vviews(rids@).take(j as int + 1);
                    assert(t.drop_last() =~= vviews(rids@).take(j as int));
                    assert(t.last() == rids@[j as int]@);
                    if let Some(name) = role_name_exec(&g.roles, &rids[j]) {
                        let pat = mention_pattern(&ropen, &rids[j]);
                        let rep = at_name(&name);
                        out = replace_all_exec(&out, &pat, &rep);
                    }
                    j += 1;
                }
                assert(vviews(rids@).take(rids.len() as int) =~= vviews(rids@));
                string_of(&out)
            },
        }
    }
}

} // verus!
