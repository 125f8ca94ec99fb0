use vstd::prelude::*;

use crate::api::{
    dedup, display_name, dm_name, fold_replace, mapped_content, mention_name, role_name, role_open,
    scan_ids, user_open, Guild, GuildMember, Message, Role, User, DM,
};
use crate::submit::{fold_mentions, keep_member, member_id, mention_scan, outgoing_text};
use crate::text::{
    all_alphanumeric, all_digits, find_first, lemma_find_first_matches, replace_all, starts_with_seq,
};
use crate::layout::{date_part, message_line, time_part};
use crate::logs::{log_type_name};
use crate::state::LogType;
use crate::text::join_seq;

verus! {

// ---------------------------------------------------------------------------
// Occurrences
// ---------------------------------------------------------------------------

/// `p` occurs in `s` at position `i`.
pub open spec fn occurs_at(s: Seq<char>, p: Seq<char>, i: int) -> bool {
    0 <= i && i + p.len() <= s.len() && s.subrange(i, i + p.len()) == p
}

/// `p` occurs somewhere in `s`.
pub open spec fn occurs(s: Seq<char>, p: Seq<char>) -> bool {
    exists|i: int| occurs_at(s, p, i)
}

/// An occurrence in `a` stays one in `a + b`.
proof fn lemma_occurs_prefix(a: Seq<char>, b: Seq<char>, p: Seq<char>, i: int)
    requires
        occurs_at(a, p, i),
    ensures
        occurs_at(a + b, p, i),
{
    assert((a + b).subrange(i, i + p.len()) =~= a.subrange(i, i + p.len()));
}

/// An occurrence in `b` is one in `a + b`, moved by the length of `a`.
proof fn lemma_occurs_suffix(a: Seq<char>, b: Seq<char>, p: Seq<char>, i: int)
    requires
        occurs_at(b, p, i),
    ensures
        occurs_at(a + b, p, a.len() + i),
{
    assert((a + b).subrange(a.len() + i, a.len() + i + p.len()) =~= b.subrange(i, i + p.len()));
}

/// Every item of a joined list occurs in the joined text.
proof fn lemma_join_holds_items(items: Seq<Seq<char>>, sep: Seq<char>, j: int)
    requires
        0 <= j < items.len(),
    ensures
        occurs(join_seq(items, sep), items[j]),
    decreases items.len(),
{
    if items.len() == 1 {
        assert(occurs_at(join_seq(items, sep), items[j], 0)) by {
            assert(join_seq(items, sep).subrange(0, items[0].len() as int) =~= items[0]);
        }
    } else {
        let prev = join_seq(items.drop_last(), sep);
        if j < items.len() - 1 {
            lemma_join_holds_items(items.drop_last(), sep, j);
            let i = choose|i: int| occurs_at(prev, items.drop_last()[j], i);
            lemma_occurs_prefix(prev, sep + items.last(), items[j], i);
            assert(prev + (sep + items.last()) =~= join_seq(items, sep));
        } else {
            let w = prev + sep;
            assert(occurs_at(items.last(), items.last(), 0)) by {
                assert(items.last().subrange(0, items.last().len() as int) =~= items.last());
            }
            lemma_occurs_suffix(w, items.last(), items.last(), 0);
        }
    }
}

/// The length of a joined list: the items' lengths and one separator between each two.
pub open spec fn total_len(items: Seq<Seq<char>>) -> nat
    decreases items.len(),
{
    if items.len() == 0 {
        0
    } else {
        total_len(items.drop_last()) + items.last().len()
    }
}

proof fn lemma_join_len(items: Seq<Seq<char>>, sep: Seq<char>)
    requires
        items.len() > 0,
    ensures
        join_seq(items, sep).len() == total_len(items) + (items.len() - 1) * sep.len(),
    decreases items.len(),
{
    if items.len() > 1 {
        lemma_join_len(items.drop_last(), sep);
        let n = items.len() as int;
        let k = sep.len() as int;
        assert((n - 1) * k == (n - 2) * k + k) by (nonlinear_arith);
        assert(join_seq(items, sep) == join_seq(items.drop_last(), sep) + sep + items.last());
        assert(total_len(items) == total_len(items.drop_last()) + items.last().len());
    } else {
        assert(items.drop_last().len() == 0);
        assert(total_len(items.drop_last()) == 0);
        assert(join_seq(items, sep) == items[0]);
        assert(items.last() == items[0]);
    }
}

// ---------------------------------------------------------------------------
// Naming a conversation
// ---------------------------------------------------------------------------

/// The shown names of the users, in order (a list of its own, apart from the naming).
pub open spec fn shown_names(us: Seq<User>) -> Seq<Seq<char>> {
    Seq::new(us.len(), |j: int| display_name(us[j]))
}

/// A group conversation is named after every one of its members: each member's shown name
/// occurs in the name, and the name is the conversation's own name (if any) with the members'
/// names and a `, ` between each two, so nothing else and no one else is listed.
pub proof fn law_group_name_lists_every_member(dm: DM)
    requires
        !(dm.channel_type == 1 && dm.recipients@.len() > 0),
    ensures
        forall|j: int| 0 <= j < dm.recipients@.len() ==> occurs(dm_name(dm), #[trigger] display_name(dm.recipients@[j])),
        dm.recipients@.len() > 0 ==> dm_name(dm).len() == total_len(shown_names(dm.recipients@)) + 2 * (
        dm.recipients@.len() - 1) + match dm.name {
            Some(n) => n@.len() + 3,
            None => 0,
        },
{
    let names = shown_names(dm.recipients@);
    let users = join_seq(crate::api::display_names(dm.recipients@), ", "@);
    assert(crate::api::display_names(dm.recipients@) =~= names);
    reveal_strlit(", ");
    reveal_strlit(" (");
    reveal_strlit(")");
    assert forall|j: int| 0 <= j < dm.recipients@.len() implies occurs(dm_name(dm), #[trigger] display_name(dm.recipients@[j])) by {
        lemma_join_holds_items(names, ", "@, j);
        let i = choose|i: int| occurs_at(users, names[j], i);
        match dm.name {
            Some(n) => {
                lemma_occurs_prefix(users, ")"@, names[j], i);
                lemma_occurs_suffix(n@ + " ("@, users + ")"@, names[j], i);
                assert(n@ + " ("@ + (users + ")"@) =~= n@ + " ("@ + users + ")"@);
            },
            None => {},
        }
    }
    if dm.recipients@.len() > 0 {
        lemma_join_len(names, ", "@);
    }
}

// ---------------------------------------------------------------------------
// Log kinds
// ---------------------------------------------------------------------------

/// Each kind of log line is written under its own name, so a line read back tells its kind:
/// `ERROR`, `WARN`, `INFO` and `DEBUG`, and two kinds never share a name.
pub proof fn law_log_kinds_have_their_own_names(a: LogType, b: LogType)
    ensures
        log_type_name(a) == log_type_name(b) ==> a == b,
        log_type_name(LogType::Error) == "ERROR"@,
        log_type_name(LogType::Warning) == "WARN"@,
        log_type_name(LogType::Info) == "INFO"@,
        log_type_name(LogType::Debug) == "DEBUG"@,
{
    reveal_strlit("ERROR");
    reveal_strlit("WARN");
    reveal_strlit("INFO");
    reveal_strlit("DEBUG");
    if log_type_name(a) == log_type_name(b) {
        let n = log_type_name(a);
        assert(n.len() == log_type_name(b).len());
        assert(n[0] == log_type_name(b)[0]);
    }
}

// ---------------------------------------------------------------------------
// The author of a chat line
// ---------------------------------------------------------------------------

/// The author of a chat line is shown by name, never by id: the line is the bracketed time,
/// the author's shown name (its username where usernames are shown) and the text, and two
/// messages that differ only in their author's id get the same line.
pub proof fn law_chat_line_shows_the_author_by_name(m: Message, display_username: bool, id: String)
    ensures
        message_line(m, display_username) == "["@ + date_part(m.timestamp@) + " "@ + time_part(m.timestamp@)
            + "] "@ + (if display_username {
            m.author.username@
        } else {
            display_name(m.author)
        }) + ": "@ + match m.content {
            Some(c) => c@,
            None => "(*non-text*)"@,
        },
        message_line(m, display_username) == message_line(
            Message { author: User { id: id, ..m.author }, ..m },
            display_username,
        ),
{
}


// ---------------------------------------------------------------------------
// Replacing, and what it leaves
// ---------------------------------------------------------------------------

/// `dedup` keeps every item.
pub proof fn lemma_dedup_keeps(s: Seq<Seq<char>>, x: Seq<char>)
    requires
        s.contains(x),
    ensures
        dedup(s).contains(x),
    decreases s.len(),
{
    if s.last() == x {
        let d = dedup(s.drop_last());
        if !d.contains(x) {
            assert(d.push(x)[d.len() as int] == x);
        }
    } else {
        let k = choose|k: int| 0 <= k < s.len() && s[k] == x;
        assert(s.drop_last()[k] == x);
        lemma_dedup_keeps(s.drop_last(), x);
        let d = dedup(s.drop_last());
        let j = choose|j: int| 0 <= j < d.len() && d[j] == x;
        if !d.contains(s.last()) {
            assert(d.push(s.last())[j] == x);
        }
    }
}

/// Where the text after replacing starts with `q`, which holds no character that starts
/// the replacement, the text before replacing started with `q` too.
proof fn lemma_replace_keeps_start(s: Seq<char>, pat: Seq<char>, rep: Seq<char>, q: Seq<char>)
    requires
        rep.len() > 0,
        forall|k: int| 0 <= k < q.len() ==> q[k] != rep[0],
        q.len() > 0,
        starts_with_seq(replace_all(s, pat, rep), q),
    ensures
        starts_with_seq(s, q),
    decreases s.len(),
{
    let r = replace_all(s, pat, rep);
    if s.len() == 0 {
        assert(r == s);
    } else if pat.len() > 0 && starts_with_seq(s, pat) {
        assert(r == rep + replace_all(s.skip(pat.len() as int), pat, rep));
        assert(r[0] == rep[0]);
        assert(r.take(q.len() as int)[0] == q[0]);
    } else {
        let r2 = replace_all(s.drop_first(), pat, rep);
        assert(r == seq![s[0]] + r2);
        assert(r.take(q.len() as int)[0] == q[0]);
        assert(s[0] == q[0]);
        if q.len() > 1 {
            let q2 = q.drop_first();
            assert(r2.take(q2.len() as int) =~= r.take(q.len() as int).drop_first());
            lemma_replace_keeps_start(s.drop_first(), pat, rep, q2);
            assert(s.take(q.len() as int) =~= seq![s[0]] + s.drop_first().take(q2.len() as int));
            assert(q =~= seq![q[0]] + q2);
        } else {
            assert(s.take(1) =~= seq![s[0]]);
            assert(q =~= seq![q[0]]);
        }
    }
}

/// A mention `<@id>` with a numeric id.
pub open spec fn mention_of(id: Seq<char>) -> Seq<char> {
    seq!['<', '@'] + id + seq!['>']
}

/// Replacing with a mention of a numeric id leaves no `@n` behind, for a name `n` of letters
/// and digits that is not all digits: where `@n` is what is replaced, every one goes, and
/// where there was none, none appears.
proof fn lemma_mention_replace_leaves_no_name(s: Seq<char>, pat: Seq<char>, id: Seq<char>, n: Seq<char>)
    requires
        pat.len() > 0,
        all_digits(id),
        all_alphanumeric(n),
        !all_digits(n),
        pat == seq!['@'] + n || !occurs(s, seq!['@'] + n),
    ensures
        !occurs(replace_all(s, pat, mention_of(id)), seq!['@'] + n),
    decreases s.len(),
{
    let p = seq!['@'] + n;
    let rep = mention_of(id);
    let r = replace_all(s, pat, rep);
    if occurs(r, p) {
        let i = choose|i: int| occurs_at(r, p, i);
        if s.len() == 0 {
        } else if starts_with_seq(s, pat) {
            let rest = s.skip(pat.len() as int);
            let r2 = replace_all(rest, pat, rep);
            assert(r == rep + r2);
            if occurs(rest, p) {
                let k = choose|k: int| occurs_at(rest, p, k);
                assert(s.subrange(pat.len() + k, pat.len() + k + p.len()) =~= rest.subrange(k, k + p.len()));
                assert(occurs_at(s, p, pat.len() + k));
                if pat == p {
                    assert(s.subrange(0, p.len() as int) =~= s.take(p.len() as int));
                }
            }
            lemma_mention_replace_leaves_no_name(rest, pat, id, n);
            if i >= rep.len() {
                assert(r2.subrange(i - rep.len(), i - rep.len() + p.len()) =~= r.subrange(i, i + p.len()));
                assert(occurs_at(r2, p, i - rep.len()));
            } else {
                assert(r.subrange(i, i + p.len())[0] == r[i]);
                assert(r[i] == rep[i]);
                assert(i == 1);
                assert(n.len() > 0);
                if n.len() <= id.len() {
                    assert forall|k: int| 0 <= k < n.len() implies crate::text::is_ascii_digit(#[trigger] n[k]) by {
                        assert(r.subrange(i, i + p.len())[k + 1] == r[2 + k]);
                        assert(r[2 + k] == rep[2 + k]);
                        assert(rep[2 + k] == id[k]);
                    }
                } else {
                    let k = id.len() as int;
                    assert(r.subrange(i, i + p.len())[k + 1] == r[2 + k]);
                    assert(r[2 + k] == rep[2 + k]);
                    assert(rep[2 + k] == '>');
                    assert(crate::text::is_ascii_alphanumeric(n[k]));
                }
            }
        } else {
            let rest = s.drop_first();
            let r2 = replace_all(rest, pat, rep);
            assert(r == seq![s[0]] + r2);
            if occurs(rest, p) {
                let k = choose|k: int| occurs_at(rest, p, k);
                assert(s.subrange(1 + k, 1 + k + p.len()) =~= rest.subrange(k, k + p.len()));
                assert(occurs_at(s, p, 1 + k));
            }
            lemma_mention_replace_leaves_no_name(rest, pat, id, n);
            if i >= 1 {
                assert(r2.subrange(i - 1, i - 1 + p.len()) =~= r.subrange(i, i + p.len()));
                assert(occurs_at(r2, p, i - 1));
            } else {
                assert(r.subrange(0, p.len() as int)[0] == s[0]);
                assert(s[0] == '@');
                assert(r2.take(n.len() as int) =~= r.subrange(0, p.len() as int).drop_first());
                assert(r.subrange(0, p.len() as int) == p);
                assert(p.drop_first() =~= n);
                assert(r2.take(n.len() as int) == n);
                assert forall|k: int| 0 <= k < n.len() implies n[k] != rep[0] by {
                    assert(crate::text::is_ascii_alphanumeric(n[k]));
                }
                lemma_replace_keeps_start(rest, pat, rep, n);
                assert(s.subrange(0, p.len() as int) =~= seq![s[0]] + rest.take(n.len() as int));
                assert(occurs_at(s, p, 0));
                if pat == p {
                    assert(s.take(pat.len() as int) =~= s.subrange(0, p.len() as int));
                }
            }
        }
    }
}

/// The id that `member_id` gives is a member's id, found for that member's username.
proof fn lemma_member_id(gms: Seq<GuildMember>, name: Seq<char>)
    requires
        member_id(gms, name) is Some,
    ensures
        exists|k: int| 0 <= k < gms.len() && gms[k].user.username@ == name && member_id(gms, name) == Some(
            gms[k].user.id@,
        ),
    decreases gms.len(),
{
    if gms[0].user.username@ == name {
        assert(0 < gms.len() && gms[0].user.username@ == name);
    } else {
        lemma_member_id(gms.drop_first(), name);
        let k = choose|k: int| 0 <= k < gms.drop_first().len() && gms.drop_first()[k].user.username@ == name
            && member_id(gms.drop_first(), name) == Some(gms.drop_first()[k].user.id@);
        assert(gms[k + 1] == gms.drop_first()[k]);
    }
}

/// Members whose ids are numbers and whose usernames are not.
pub open spec fn plain_members(gms: Seq<GuildMember>) -> bool {
    forall|k: int| 0 <= k < gms.len() ==> all_digits(#[trigger] gms[k].user.id@) && !all_digits(gms[k].user.username@)
}

proof fn lemma_fold_leaves_no_name(s: Seq<char>, names: Seq<Seq<char>>, gms: Seq<GuildMember>, n: Seq<char>)
    requires
        plain_members(gms),
        all_alphanumeric(n),
        !all_digits(n),
        (names.contains(n) && member_id(gms, n) is Some) || !occurs(s, seq!['@'] + n),
    ensures
        !occurs(fold_mentions(s, names, gms), seq!['@'] + n),
    decreases names.len(),
{
    if names.len() > 0 {
        let last = names.last();
        let prev = fold_mentions(s, names.drop_last(), gms);
        if last != n && names.contains(n) && member_id(gms, n) is Some {
            let k = choose|k: int| 0 <= k < names.len() && names[k] == n;
            assert(names.drop_last()[k] == n);
        }
        if !(last == n && member_id(gms, n) is Some) {
            lemma_fold_leaves_no_name(s, names.drop_last(), gms, n);
        }
        match member_id(gms, last) {
            Some(id) => {
                lemma_member_id(gms, last);
                let j = choose|j: int| 0 <= j < gms.len() && gms[j].user.username@ == last && member_id(gms, last) == Some(
                    gms[j].user.id@,
                );
                assert(all_digits(gms[j].user.id@));
                lemma_mention_replace_leaves_no_name(prev, seq!['@'] + last, id, n);
            },
            None => {},
        }
    }
}

/// The names the scan finds are made of letters and digits.
proof fn lemma_scan_names_alphanumeric(t: Seq<char>)
    ensures
        mention_scan(t) matches Some(names) ==> forall|k: int| 0 <= k < names.len() ==> all_alphanumeric(#[trigger] names[k]),
    decreases t.len(),
{
    match find_first(t, seq!['@']) {
        None => {},
        Some(i) => {
            lemma_find_first_matches(t, seq!['@']);
            let after = t.skip(i + 1);
            match find_first(after, seq![' ']) {
                Some(e) => {
                    lemma_find_first_matches(after, seq![' ']);
                    lemma_scan_names_alphanumeric(after.skip(e));
                    if let Some(r) = mention_scan(after.skip(e)) {
                        let km = keep_member(after.take(e));
                        assert forall|k: int| 0 <= k < (km + r).len() implies all_alphanumeric(#[trigger] (km + r)[k]) by {
                            if k >= km.len() {
                                assert((km + r)[k] == r[k - km.len()]);
                            }
                        }
                    }
                },
                None => {},
            }
        },
    }
}

/// Sending a message turns every `@name` of a guild member into a mention: for each name the
/// scan finds that belongs to a member, no `@name` is left in the text sent, however many
/// other names come before it. Member ids are numbers and usernames are not (a member
/// named by digits alone could be spelled by another member's mention).
pub proof fn law_sent_text_mentions_every_member(content: Seq<char>, gms: Seq<GuildMember>, n: Seq<char>)
    requires
        plain_members(gms),
        mention_scan(content) matches Some(names) && names.contains(n),
        member_id(gms, n) is Some,
    ensures
        !occurs(outgoing_text(content, gms), seq!['@'] + n),
{
    let names = mention_scan(content)->0;
    lemma_scan_names_alphanumeric(content);
    let k = choose|k: int| 0 <= k < names.len() && names[k] == n;
    assert(all_alphanumeric(names[k]));
    lemma_member_id(gms, n);
    lemma_dedup_keeps(names, n);
    lemma_fold_leaves_no_name(content, dedup(names), gms, n);
}


// ---------------------------------------------------------------------------
// Showing mentions by name
// ---------------------------------------------------------------------------

/// A name that cannot spell a mention: not digits alone, and without `<`, `>` or `&`.
pub open spec fn plain_name(n: Seq<char>) -> bool {
    !all_digits(n) && forall|k: int| 0 <= k < n.len() ==> #[trigger] n[k] != '<' && n[k] != '>' && n[k] != '&'
}

/// A mention of a user (`<@id>`) or of a role (`<@&id>`).
pub open spec fn tagged(open: Seq<char>, id: Seq<char>) -> Seq<char> {
    open + id + seq!['>']
}

/// After its `<`, a mention holds `@` only at its second place, and otherwise only `&`,
/// digits and the closing `>`.
proof fn lemma_tag_chars(open: Seq<char>, d: Seq<char>)
    requires
        open == user_open() || open == role_open(),
        all_digits(d),
    ensures
        tagged(open, d).len() >= 3,
        tagged(open, d)[0] == '<',
        tagged(open, d)[1] == '@',
        tagged(open, d)[tagged(open, d).len() - 1] == '>',
        forall|m: int| 2 <= m < tagged(open, d).len() ==> {
            let c = #[trigger] tagged(open, d)[m];
            c == '&' || c == '>' || crate::text::is_ascii_digit(c)
        },
{
    let t = tagged(open, d);
    assert forall|m: int| 2 <= m < t.len() implies {
        let c = #[trigger] t[m];
        c == '&' || c == '>' || crate::text::is_ascii_digit(c)
    } by {
        if m < open.len() {
            assert(t[m] == open[m]);
        } else if m < open.len() + d.len() {
            assert(t[m] == d[m - open.len()]);
        } else {
            assert(t[m] == '>');
        }
    }
}

/// `@name` never starts the rest of a mention: after replacing, text that starts with the
/// rest of a mention after its first `k` characters started with it before.
proof fn lemma_at_name_keeps_tag_start(
    s: Seq<char>,
    pat: Seq<char>,
    name: Seq<char>,
    open: Seq<char>,
    d: Seq<char>,
    k: int,
)
    requires
        open == user_open() || open == role_open(),
        all_digits(d),
        plain_name(name),
        1 <= k < tagged(open, d).len(),
        starts_with_seq(replace_all(s, pat, seq!['@'] + name), tagged(open, d).skip(k)),
    ensures
        starts_with_seq(s, tagged(open, d).skip(k)),
    decreases s.len(),
{
    let t = tagged(open, d);
    let q = t.skip(k);
    let rep = seq!['@'] + name;
    let r = replace_all(s, pat, rep);
    lemma_tag_chars(open, d);
    if s.len() == 0 {
        assert(r == s);
    } else if pat.len() > 0 && starts_with_seq(s, pat) {
        let r2 = replace_all(s.skip(pat.len() as int), pat, rep);
        assert(r == rep + r2);
        assert(r.take(q.len() as int)[0] == q[0]);
        assert(q[0] == t[k]);
        assert(k == 1);
        if name.len() >= q.len() - 1 {
            let m = q.len() - 2;
            assert(r.take(q.len() as int)[m + 1] == q[m + 1]);
            assert(r[m + 1] == name[m]);
            assert(q[m + 1] == t[t.len() - 1]);
        } else {
            assert forall|m: int| 0 <= m < name.len() implies crate::text::is_ascii_digit(#[trigger] name[m]) by {
                assert(r.take(q.len() as int)[m + 1] == q[m + 1]);
                assert(r[m + 1] == name[m]);
                assert(q[m + 1] == t[m + 2]);
            }
        }
    } else {
        let r2 = replace_all(s.drop_first(), pat, rep);
        assert(r == seq![s[0]] + r2);
        assert(r.take(q.len() as int)[0] == q[0]);
        if q.len() > 1 {
            let q2 = q.drop_first();
            assert(q2 =~= t.skip(k + 1));
            assert(r2.take(q2.len() as int) =~= r.take(q.len() as int).drop_first());
            lemma_at_name_keeps_tag_start(s.drop_first(), pat, name, open, d, k + 1);
            assert(s.take(q.len() as int) =~= seq![s[0]] + s.drop_first().take(q2.len() as int));
            assert(q =~= seq![q[0]] + q2);
        } else {
            assert(s.take(1) =~= seq![s[0]]);
            assert(q =~= seq![q[0]]);
        }
    }
}

/// Replacing a mention by `@name` leaves no mention `tagged(open, d)` behind: where it is
/// what is replaced, every one goes, and where there was none, none appears.
#[verifier::rlimit(80)]
proof fn lemma_at_name_leaves_no_tag(s: Seq<char>, pat: Seq<char>, name: Seq<char>, open: Seq<char>, d: Seq<char>)
    requires
        open == user_open() || open == role_open(),
        all_digits(d),
        plain_name(name),
        pat.len() > 0,
        pat == tagged(open, d) || !occurs(s, tagged(open, d)),
    ensures
        !occurs(replace_all(s, pat, seq!['@'] + name), tagged(open, d)),
    decreases s.len(),
{
    let p = tagged(open, d);
    let rep = seq!['@'] + name;
    let r = replace_all(s, pat, rep);
    lemma_tag_chars(open, d);
    if occurs(r, p) {
        let i = choose|i: int| occurs_at(r, p, i);
        assert(r.subrange(i, i + p.len())[0] == r[i]);
        if s.len() == 0 {
        } else if starts_with_seq(s, pat) {
            let rest = s.skip(pat.len() as int);
            let r2 = replace_all(rest, pat, rep);
            assert(r == rep + r2);
            if occurs(rest, p) {
                let k = choose|k: int| occurs_at(rest, p, k);
                assert(s.subrange(pat.len() + k, pat.len() + k + p.len()) =~= rest.subrange(k, k + p.len()));
                assert(occurs_at(s, p, pat.len() + k));
                if pat == p {
                    assert(s.subrange(0, p.len() as int) =~= s.take(p.len() as int));
                }
            }
            lemma_at_name_leaves_no_tag(rest, pat, name, open, d);
            if i >= rep.len() {
                assert(r2.subrange(i - rep.len(), i - rep.len() + p.len()) =~= r.subrange(i, i + p.len()));
                assert(occurs_at(r2, p, i - rep.len()));
            } else {
                assert(r[i] == rep[i]);
                if i > 0 {
                    assert(rep[i] == name[i - 1]);
                }
            }
        } else {
            let rest = s.drop_first();
            let r2 = replace_all(rest, pat, rep);
            assert(r == seq![s[0]] + r2);
            if occurs(rest, p) {
                let k = choose|k: int| occurs_at(rest, p, k);
                assert(s.subrange(1 + k, 1 + k + p.len()) =~= rest.subrange(k, k + p.len()));
                assert(occurs_at(s, p, 1 + k));
            }
            lemma_at_name_leaves_no_tag(rest, pat, name, open, d);
            if i >= 1 {
                assert(r2.subrange(i - 1, i - 1 + p.len()) =~= r.subrange(i, i + p.len()));
                assert(occurs_at(r2, p, i - 1));
            } else {
                assert(s[0] == '<');
                let q = p.skip(1);
                assert(r2.take(q.len() as int) =~= r.subrange(0, p.len() as int).drop_first());
                assert(r.subrange(0, p.len() as int) == p);
                assert(r2.take(q.len() as int) == q);
                lemma_at_name_keeps_tag_start(rest, pat, name, open, d, 1);
                assert(s.subrange(0, p.len() as int) =~= seq![s[0]] + rest.take(q.len() as int));
                assert(p =~= seq![p[0]] + q);
                assert(occurs_at(s, p, 0));
                if pat == p {
                    assert(s.take(pat.len() as int) =~= s.subrange(0, p.len() as int));
                }
            }
        }
    }
}

/// Replacing the mentions `open id >` of `ids` in turn by `@name` leaves no mention
/// `tagged(o, d)`: where `d` is among `ids` with a name, with the same opening, every one
/// goes, and where there was none, none appears.
proof fn lemma_fold_leaves_no_tag(
    s: Seq<char>,
    ids: Seq<Seq<char>>,
    names: spec_fn(Seq<char>) -> Option<Seq<char>>,
    open: Seq<char>,
    o: Seq<char>,
    d: Seq<char>,
)
    requires
        open == user_open() || open == role_open(),
        o == user_open() || o == role_open(),
        all_digits(d),
        forall|x: Seq<char>| (#[trigger] names(x)) is Some ==> plain_name(names(x)->0),
        (o == open && ids.contains(d) && names(d) is Some) || !occurs(s, tagged(o, d)),
    ensures
        !occurs(fold_replace(s, ids, names, open), tagged(o, d)),
    decreases ids.len(),
{
    if ids.len() > 0 {
        let last = ids.last();
        let prev = fold_replace(s, ids.drop_last(), names, open);
        if last != d && ids.contains(d) {
            let k = choose|k: int| 0 <= k < ids.len() && ids[k] == d;
            assert(ids.drop_last()[k] == d);
        }
        if !(o == open && last == d && names(d) is Some) {
            lemma_fold_leaves_no_tag(s, ids.drop_last(), names, open, o, d);
        }
        match names(last) {
            Some(n) => {
                let pat = open + last + seq!['>'];
                if o == open && last == d {
                    assert(pat =~= tagged(o, d));
                }
                lemma_at_name_leaves_no_tag(prev, pat, n, o, d);
            },
            None => {},
        }
    }
}

/// The ids the scan finds are made of digits.
proof fn lemma_scan_ids_digits(s: Seq<char>, prefix: Seq<char>)
    ensures
        forall|k: int| 0 <= k < scan_ids(s, prefix).len() ==> all_digits(#[trigger] scan_ids(s, prefix)[k]),
    decreases s.len(),
{
    if prefix.len() > 0 {
        match find_first(s, prefix) {
            None => {},
            Some(i) => {
                lemma_find_first_matches(s, prefix);
                let after = s.skip(i + prefix.len());
                match find_first(after, seq!['>']) {
                    None => {},
                    Some(j) => {
                        lemma_find_first_matches(after, seq!['>']);
                        let id = after.take(j);
                        let found: Seq<Seq<char>> = if all_digits(id) {
                            seq![id]
                        } else {
                            Seq::empty()
                        };
                        let rest = scan_ids(after.skip(j + 1), prefix);
                        lemma_scan_ids_digits(after.skip(j + 1), prefix);
                        assert(scan_ids(s, prefix) == found + rest);
                        assert forall|k: int| 0 <= k < (found + rest).len() implies all_digits(#[trigger] (found + rest)[k]) by {
                            if k >= found.len() {
                                assert((found + rest)[k] == rest[k - found.len()]);
                            }
                        }
                    },
                }
            },
        }
    }
}

/// A mentioned user with the id gives it a name, and any name given is a mentioned user's.
proof fn lemma_mention_name(ms: Seq<User>, id: Seq<char>)
    ensures
        (exists|k: int| 0 <= k < ms.len() && ms[k].id@ == id) ==> mention_name(ms, id) is Some,
        mention_name(ms, id) matches Some(n) ==> exists|k: int| 0 <= k < ms.len() && n == display_name(ms[k]),
    decreases ms.len(),
{
    if ms.len() > 0 {
        lemma_mention_name(ms.drop_last(), id);
        if ms.last().id@ != id {
            if exists|k: int| 0 <= k < ms.len() && ms[k].id@ == id {
                let k = choose|k: int| 0 <= k < ms.len() && ms[k].id@ == id;
                assert(ms.drop_last()[k] == ms[k]);
            }
            if let Some(n) = mention_name(ms, id) {
                let k = choose|k: int| 0 <= k < ms.drop_last().len() && n == display_name(ms.drop_last()[k]);
                assert(ms[k] == ms.drop_last()[k]);
            }
        } else {
            assert(ms[ms.len() - 1] == ms.last());
        }
    }
}

/// A role with the id gives it a name, and any name given is a role's.
proof fn lemma_role_name(roles: Seq<Role>, id: Seq<char>)
    ensures
        (exists|k: int| 0 <= k < roles.len() && roles[k].id@ == id) ==> role_name(roles, id) is Some,
        role_name(roles, id) matches Some(n) ==> exists|k: int| 0 <= k < roles.len() && n == roles[k].name@,
    decreases roles.len(),
{
    if roles.len() > 0 {
        lemma_role_name(roles.drop_last(), id);
        if roles.last().id@ != id {
            if exists|k: int| 0 <= k < roles.len() && roles[k].id@ == id {
                let k = choose|k: int| 0 <= k < roles.len() && roles[k].id@ == id;
                assert(roles.drop_last()[k] == roles[k]);
            }
            if let Some(n) = role_name(roles, id) {
                let k = choose|k: int| 0 <= k < roles.drop_last().len() && n == roles.drop_last()[k].name@;
                assert(roles[k] == roles.drop_last()[k]);
            }
        } else {
            assert(roles[roles.len() - 1] == roles.last());
        }
    }
}

/// The names that can stand in for mentions cannot spell one.
pub open spec fn plain_names(mentions: Seq<User>, guild: Option<Guild>) -> bool {
    &&& forall|k: int| 0 <= k < mentions.len() ==> plain_name(#[trigger] display_name(mentions[k]))
    &&& guild matches Some(g) ==> forall|k: int| 0 <= k < g.roles@.len() ==> plain_name(#[trigger] g.roles@[k].name@)
}

proof fn lemma_names_plain(mentions: Seq<User>, guild: Option<Guild>)
    requires
        plain_names(mentions, guild),
    ensures
        forall|x: Seq<char>| (#[trigger] mention_name(mentions, x)) is Some ==> plain_name(mention_name(mentions, x)->0),
        guild matches Some(g) ==> forall|x: Seq<char>| (#[trigger] role_name(g.roles@, x)) is Some ==> plain_name(role_name(g.roles@, x)->0),
{
    assert forall|x: Seq<char>| (#[trigger] mention_name(mentions, x)) is Some implies plain_name(mention_name(mentions, x)->0) by {
        lemma_mention_name(mentions, x);
    }
    if let Some(g) = guild {
        assert forall|x: Seq<char>| (#[trigger] role_name(g.roles@, x)) is Some implies plain_name(role_name(g.roles@, x)->0) by {
            lemma_role_name(g.roles@, x);
        }
    }
}

/// A message is shown with every mention of a mentioned user by name: for each `<@id>` the
/// scan of its text finds whose user the message mentions, no `<@id>` is left, however many
/// other mentions come before it. Names are taken not to spell mentions themselves.
pub proof fn law_shown_text_names_every_mentioned_user(
    content: Seq<char>,
    mentions: Seq<User>,
    guild: Option<Guild>,
    id: Seq<char>,
)
    requires
        scan_ids(content, user_open()).contains(id),
        exists|k: int| 0 <= k < mentions.len() && mentions[k].id@ == id,
        plain_names(mentions, guild),
    ensures
        !occurs(mapped_content(content, mentions, guild), seq!['<', '@'] + id + seq!['>']),
{
    let ids = scan_ids(content, user_open());
    lemma_scan_ids_digits(content, user_open());
    let k = choose|k: int| 0 <= k < ids.len() && ids[k] == id;
    assert(all_digits(ids[k]));
    lemma_dedup_keeps(ids, id);
    lemma_mention_name(mentions, id);
    lemma_names_plain(mentions, guild);
    let names = |x: Seq<char>| mention_name(mentions, x);
    assert forall|x: Seq<char>| (#[trigger] names(x)) is Some implies plain_name(names(x)->0) by {
        assert(names(x) == mention_name(mentions, x));
    }
    assert(names(id) is Some);
    lemma_fold_leaves_no_tag(content, dedup(ids), names, user_open(), user_open(), id);
    let users = fold_replace(content, dedup(ids), names, user_open());
    assert(tagged(user_open(), id) =~= seq!['<', '@'] + id + seq!['>']);
    if let Some(g) = guild {
        let rnames = |x: Seq<char>| role_name(g.roles@, x);
        assert forall|x: Seq<char>| (#[trigger] rnames(x)) is Some implies plain_name(rnames(x)->0) by {
            assert(rnames(x) == role_name(g.roles@, x));
        }
        lemma_fold_leaves_no_tag(users, dedup(scan_ids(content, role_open())), rnames, role_open(), user_open(), id);
    }
}

/// A message in a guild is shown with every mention of one of the guild's roles by name:
/// for each `<@&id>` the scan of its text finds whose role the guild has, no `<@&id>` is
/// left, however many other mentions come before it.
pub proof fn law_shown_text_names_every_role(content: Seq<char>, mentions: Seq<User>, g: Guild, id: Seq<char>)
    requires
        scan_ids(content, role_open()).contains(id),
        exists|k: int| 0 <= k < g.roles@.len() && g.roles@[k].id@ == id,
        plain_names(mentions, Some(g)),
    ensures
        !occurs(mapped_content(content, mentions, Some(g)), seq!['<', '@', '&'] + id + seq!['>']),
{
    let ids = scan_ids(content, role_open());
    lemma_scan_ids_digits(content, role_open());
    let k = choose|k: int| 0 <= k < ids.len() && ids[k] == id;
    assert(all_digits(ids[k]));
    lemma_dedup_keeps(ids, id);
    lemma_role_name(g.roles@, id);
    lemma_names_plain(mentions, Some(g));
    let names = |x: Seq<char>| mention_name(mentions, x);
    let users = fold_replace(content, dedup(scan_ids(content, user_open())), names, user_open());
    let rnames = |x: Seq<char>| role_name(g.roles@, x);
    assert forall|x: Seq<char>| (#[trigger] rnames(x)) is Some implies plain_name(rnames(x)->0) by {
        assert(rnames(x) == role_name(g.roles@, x));
    }
    assert(rnames(id) is Some);
    lemma_fold_leaves_no_tag(users, dedup(ids), rnames, role_open(), role_open(), id);
    assert(tagged(role_open(), id) =~= seq!['<', '@', '&'] + id + seq!['>']);
}

} // verus!
