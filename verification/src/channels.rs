use vstd::prelude::*;

use crate::state::{Channel, ChildChannel};
use crate::text::str_eq;

verus! {

/// A channel of a guild as the service lists it: a category, or a channel that may sit in
/// the category `parent_id`, at the place `position` of the guild's list.
#[derive(Debug, Clone, PartialEq)]
pub struct GuildChannel {
    pub id: String,
    pub name: String,
    pub channel_type: u8,
    pub guild_id: Option<String>,
    pub parent_id: Option<String>,
    pub position: Option<i64>,
}

impl GuildChannel {
    pub fn copy(&self) -> (r: GuildChannel)
        ensures
            r == *self,
    {
        GuildChannel {
            id: self.id.clone(),
            name: self.name.clone(),
            channel_type: self.channel_type,
            guild_id: self.guild_id.clone(),
            parent_id: self.parent_id.clone(),
            position: self.position,
        }
    }
}

// ---------------------------------------------------------------------------
// Ordering by position
// ---------------------------------------------------------------------------

/// The place of a channel in the guild's list; a channel without one comes at 0.
pub open spec fn pos(c: GuildChannel) -> int {
    match c.position {
        Some(p) => p as int,
        None => 0,
    }
}

/// How many channels of `t` have a place at or before `p`.
pub open spec fn count_le(t: Seq<GuildChannel>, p: int) -> nat
    decreases t.len(),
{
    if t.len() == 0 {
        0
    } else {
        count_le(t.drop_last(), p) + if pos(t.last()) <= p {
            1nat
        } else {
            0nat
        }
    }
}

/// The channels ordered by their place, those with the same place in the order given:
/// each channel goes in after every channel before it whose place is not later.
pub open spec fn by_position(s: Seq<GuildChannel>) -> Seq<GuildChannel>
    decreases s.len(),
{
    if s.len() == 0 {
        Seq::empty()
    } else {
        let t = by_position(s.drop_last());
        t.insert(count_le(t, pos(s.last())) as int, s.last())
    }
}

/// The places along `t` never go down.
pub open spec fn in_position_order(t: Seq<GuildChannel>) -> bool {
    forall|i: int, j: int| 0 <= i < j < t.len() ==> pos(#[trigger] t[i]) <= pos(#[trigger] t[j])
}

proof fn lemma_count_le_bound(t: Seq<GuildChannel>, p: int)
    ensures
        count_le(t, p) <= t.len(),
    decreases t.len(),
{
    if t.len() > 0 {
        lemma_count_le_bound(t.drop_last(), p);
    }
}

/// In a list in order, the channels at or before `p` are the first `count_le` ones.
proof fn lemma_count_le_split(t: Seq<GuildChannel>, p: int)
    requires
        in_position_order(t),
    ensures
        count_le(t, p) <= t.len(),
        forall|i: int| 0 <= i < count_le(t, p) ==> pos(#[trigger] t[i]) <= p,
        forall|i: int| count_le(t, p) <= i < t.len() ==> pos(#[trigger] t[i]) > p,
    decreases t.len(),
{
    if t.len() > 0 {
        let u = t.drop_last();
        assert(in_position_order(u)) by {
            assert forall|i: int, j: int| 0 <= i < j < u.len() implies pos(#[trigger] u[i]) <= pos(#[trigger] u[j]) by {
                assert(u[i] == t[i] && u[j] == t[j]);
            }
        }
        lemma_count_le_split(u, p);
        if pos(t.last()) <= p {
            assert forall|i: int| 0 <= i < count_le(t, p) implies pos(#[trigger] t[i]) <= p by {
                if i < t.len() - 1 {
                    assert(t[i] == u[i]);
                    assert(pos(t[i]) <= pos(t[t.len() - 1]));
                }
            }
        } else {
            assert forall|i: int| 0 <= i < count_le(t, p) implies pos(#[trigger] t[i]) <= p by {
                assert(t[i] == u[i]);
            }
            assert forall|i: int| count_le(t, p) <= i < t.len() implies pos(#[trigger] t[i]) > p by {
                if i < t.len() - 1 {
                    assert(t[i] == u[i]);
                }
            }
        }
    }
}

/// Ordering by place gives the same channels, in order of their place.
pub proof fn law_channels_in_position_order(s: Seq<GuildChannel>)
    ensures
        in_position_order(by_position(s)),
        by_position(s).to_multiset() == s.to_multiset(),
        by_position(s).len() == s.len(),
    decreases s.len(),
{
    broadcast use vstd::seq_lib::group_to_multiset_ensures;

    if s.len() > 0 {
        let t = by_position(s.drop_last());
        let c = s.last();
        let p = pos(c);
        law_channels_in_position_order(s.drop_last());
        lemma_count_le_split(t, p);
        let k = count_le(t, p) as int;
        let r = t.insert(k, c);
        assert(r == by_position(s));
        assert forall|i: int, j: int| 0 <= i < j < r.len() implies pos(#[trigger] r[i]) <= pos(#[trigger] r[j]) by {
            if j < k {
                assert(r[i] == t[i] && r[j] == t[j]);
            } else if j == k {
                assert(r[i] == t[i]);
            } else if i < k {
                assert(r[i] == t[i] && r[j] == t[j - 1]);
            } else if i == k {
                assert(r[j] == t[j - 1]);
            } else {
                assert(r[i] == t[i - 1] && r[j] == t[j - 1]);
            }
        }
        assert(s.drop_last().push(c) =~= s);
    }
}

/// How many channels of `t` have a place at or before `p`.
fn count_le_exec(t: &Vec<GuildChannel>, p: i64) -> (n: usize)
    ensures
        n == count_le(t@, p as int),
{
    let mut n: usize = 0;
    let mut j: usize = 0;
    while j < t.len()
        invariant
            j <= t.len(),
            n == count_le(t@.take(j as int), p as int),
            n <= j,
        decreases t.len() - j,
    {
        proof {
            assert(t@.take(j as int + 1).drop_last() =~= t@.take(j as int));
            lemma_count_le_bound(t@.take(j as int), p as int);
        }
        let q: i64 = match t[j].position {
            Some(x) => x,
            None => 0,
        };
        if q <= p {
            n += 1;
        }
        j += 1;
    }
    assert(t@.take(t.len() as int) =~= t@);
    n
}

/// The channels ordered by their place, those with the same place in the order given.
pub fn sort_by_position(raw: &Vec<GuildChannel>) -> (r: Vec<GuildChannel>)
    ensures
        r@ == by_position(raw@),
{
    let mut out: Vec<GuildChannel> = Vec::new();
    let mut i: usize = 0;
    while i < raw.len()
        invariant
            i <= raw.len(),
            out@ == by_position(raw@.take(i as int)),
        decreases raw.len() - i,
    {
        proof {
            assert(raw@.take(i as int + 1).drop_last() =~= raw@.take(i as int));
            lemma_count_le_bound(out@, pos(raw@[i as int]));
        }
        let p: i64 = match raw[i].position {
            Some(x) => x,
            None => 0,
        };
        let k = count_le_exec(&out, p);
        out.insert(k, raw[i].copy());
        i += 1;
    }
    assert(raw@.take(raw.len() as int) =~= raw@);
    out
}

// ---------------------------------------------------------------------------
// Grouping under categories
// ---------------------------------------------------------------------------

/// A channel as it is listed inside its category.
pub open spec fn child_of(c: GuildChannel) -> ChildChannel {
    ChildChannel { id: c.id, name: c.name, channel_type: c.channel_type, guild_id: c.guild_id }
}

/// The channels of `s` that sit in the category `id`, in the order of `s`.
pub open spec fn children_in(s: Seq<GuildChannel>, id: Seq<char>) -> Seq<ChildChannel>
    decreases s.len(),
{
    if s.len() == 0 {
        Seq::empty()
    } else {
        let r = children_in(s.drop_last(), id);
        if s.last().parent_id matches Some(p) && p@ == id {
            r.push(child_of(s.last()))
        } else {
            r
        }
    }
}

/// The channels of `s` that sit in no category, in the order of `s`.
pub open spec fn tops(s: Seq<GuildChannel>) -> Seq<GuildChannel>
    decreases s.len(),
{
    if s.len() == 0 {
        Seq::empty()
    } else {
        let r = tops(s.drop_last());
        if s.last().parent_id is None {
            r.push(s.last())
        } else {
            r
        }
    }
}

/// `r` is the entry of the channel list for `c`: a category holds the channels of `s` that
/// sit in it; another channel holds none.
pub open spec fn entry_for(r: Channel, c: GuildChannel, s: Seq<GuildChannel>) -> bool {
    &&& r.id == c.id
    &&& r.name == c.name
    &&& r.channel_type == c.channel_type
    &&& r.guild_id == c.guild_id
    &&& if c.channel_type == 4 {
        r.children matches Some(v) && v@ == children_in(s, c.id@)
    } else {
        r.children is None
    }
}

/// The channel list made of `s`: the channels in no category, each category with its
/// channels.
pub open spec fn grouped(r: Seq<Channel>, s: Seq<GuildChannel>) -> bool {
    r.len() == tops(s).len() && forall|j: int| 0 <= j < r.len() ==> entry_for(#[trigger] r[j], tops(s)[j], s)
}

/// The channels of `s` in the category `id`.
fn children_exec(s: &Vec<GuildChannel>, id: &String) -> (r: Vec<ChildChannel>)
    ensures
        r@ == children_in(s@, id@),
{
    let mut out: Vec<ChildChannel> = Vec::new();
    let mut i: usize = 0;
    while i < s.len()
        invariant
            i <= s.len(),
            out@ == children_in(s@.take(i as int), id@),
        decreases s.len() - i,
    {
        proof {
            assert(s@.take(i as int + 1).drop_last() =~= s@.take(i as int));
        }
        let inside = match &s[i].parent_id {
            Some(p) => str_eq(p.as_str(), id.as_str()),
            None => false,
        };
        if inside {
            let c = &s[i];
            let child = ChildChannel {
                id: c.id.clone(),
                name: c.name.clone(),
                channel_type: c.channel_type,
                guild_id: c.guild_id.clone(),
            };
            out.push(child);
        }
        i += 1;
    }
    assert(s@.take(s.len() as int) =~= s@);
    out
}

/// The channel list of a guild: the channels ordered by their place, those in no category
/// listed, and each category holding its channels in that order.
pub fn group_channels(raw: &Vec<GuildChannel>) -> (r: Vec<Channel>)
    ensures
        grouped(r@, by_position(raw@)),
{
    let sorted = sort_by_position(raw);
    let mut out: Vec<Channel> = Vec::new();
    let mut i: usize = 0;
    while i < sorted.len()
        invariant
            i <= sorted.len(),
            grouped_prefix(out@, sorted@, i as int),
        decreases sorted.len() - i,
    {
        proof {
            assert(sorted@.take(i as int + 1).drop_last() =~= sorted@.take(i as int));
        }
        let c = &sorted[i];
        if c.parent_id.is_none() {
            let children = if c.channel_type == 4 {
                Some(children_exec(&sorted, &c.id))
            } else {
                None
            };
            let entry = Channel {
                id: c.id.clone(),
                name: c.name.clone(),
                channel_type: c.channel_type,
                guild_id: c.guild_id.clone(),
                children,
            };
            out.push(entry);
        }
        i += 1;
    }
    assert(sorted@.take(sorted.len() as int) =~= sorted@);
    out
}

/// The entries for the first `k` channels of `s` are `r`.
pub open spec fn grouped_prefix(r: Seq<Channel>, s: Seq<GuildChannel>, k: int) -> bool {
    r.len() == tops(s.take(k)).len() && forall|j: int| 0 <= j < r.len() ==> entry_for(#[trigger] r[j], tops(s.take(k))[j], s)
}

} // verus!
