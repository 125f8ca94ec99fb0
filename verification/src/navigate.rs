use vstd::prelude::*;

use crate::app::{App, AppView};
use crate::state::{AppState, Channel, ChildChannel, PermissionContext};
use crate::api::Emoji;
use crate::guard::channel_entries_checked;
use crate::submit::{custom_pred, dm_count, dm_list, guild_count, guild_list, kept, list_filter, unicode_pred};
use crate::text::{chars_of, contains_exec, contains_seq, lowercase, starts_with_seq, str_starts_with, to_lowercase};

verus! {

// ---------------------------------------------------------------------------
// Moving through lists
// ---------------------------------------------------------------------------

/// One step through a list of `len` items from `sel`, going round at either end.
pub open spec fn step_index(sel: int, len: int, forward: bool) -> int {
    if forward {
        (sel + 1) % len
    } else if sel == 0 {
        len - 1
    } else {
        sel - 1
    }
}

/// Stepping forward and then back (or back and then forward) returns to the same item.
pub proof fn step_forward_back_returns(sel: int, len: int)
    requires
        0 <= sel < len,
    ensures
        step_index(step_index(sel, len, true), len, false) == sel,
        step_index(step_index(sel, len, false), len, true) == sel,
{
    if sel + 1 < len {
        vstd::arithmetic::div_mod::lemma_small_mod((sel + 1) as nat, len as nat);
    } else {
        vstd::arithmetic::div_mod::lemma_mod_self_0(len);
    }
    if sel == 0 {
        vstd::arithmetic::div_mod::lemma_mod_self_0(len);
    } else {
        vstd::arithmetic::div_mod::lemma_small_mod(sel as nat, len as nat);
    }
}

/// A step keeps the selection within the list.
pub proof fn step_stays_in_list(sel: int, len: int, forward: bool)
    requires
        0 <= sel < len,
    ensures
        0 <= step_index(sel, len, forward) < len,
{
}

/// `len` steps forward come back to the start.
pub proof fn step_cycle(sel: int, len: int, k: nat)
    requires
        0 <= sel < len,
    ensures
        0 <= steps_forward(sel, len, k) < len,
        steps_forward(sel, len, k) == (sel + k) % len,
    decreases k,
{
    if k > 0 {
        step_cycle(sel, len, (k - 1) as nat);
        let prev = steps_forward(sel, len, (k - 1) as nat);
        assert((prev + 1) % len == (sel + k) % len) by {
            vstd::arithmetic::div_mod::lemma_add_mod_noop(sel + k - 1, 1, len);
            vstd::arithmetic::div_mod::lemma_mod_twice(sel + k - 1, len);
            vstd::arithmetic::div_mod::lemma_add_mod_noop(prev, 1, len);
        }
    } else {
        vstd::arithmetic::div_mod::lemma_small_mod(sel as nat, len as nat);
    }
}

/// `k` steps forward.
pub open spec fn steps_forward(sel: int, len: int, k: nat) -> int
    decreases k,
{
    if k == 0 {
        sel
    } else {
        step_index(steps_forward(sel, len, (k - 1) as nat), len, true)
    }
}

// ---------------------------------------------------------------------------
// Which channels the channel list shows
// ---------------------------------------------------------------------------

/// The user may read the channel with the given id.
pub open spec fn readable_id(ctx: Option<PermissionContext>, id: Seq<char>) -> bool {
    match ctx {
        Some(c) => c.allows_id(id),
        None => false,
    }
}

/// A channel's name fits the (lower-cased) filter.
pub open spec fn name_fits(name: Seq<char>, filter: Seq<char>) -> bool {
    filter.len() == 0 || contains_seq(lowercase(name), filter)
}

/// A channel is listed with its content: readable and fitting the filter.
pub open spec fn shows_content(id: Seq<char>, name: Seq<char>, ctx: Option<PermissionContext>, filter: Seq<char>) -> bool {
    readable_id(ctx, id) && name_fits(name, filter)
}

/// How many of a category's channels are listed.
pub open spec fn shown_children(cs: Seq<ChildChannel>, ctx: Option<PermissionContext>, filter: Seq<char>) -> nat
    decreases cs.len(),
{
    if cs.len() == 0 {
        0
    } else {
        shown_children(cs.drop_last(), ctx, filter) + if shows_content(cs.last().id@, cs.last().name@, ctx, filter) {
            1nat
        } else {
            0nat
        }
    }
}

/// How many list entries a channel makes when moving through the channel list: a category
/// makes one for itself and one for each listed child, when its name fits the filter or
/// one of its children is listed; another channel makes one when it is listed.
pub open spec fn entries_of(c: Channel, ctx: Option<PermissionContext>, filter: Seq<char>) -> nat {
    if c.channel_type == 4 {
        let n = match c.children {
            Some(cs) => shown_children(cs@, ctx, filter),
            None => 0,
        };
        if name_fits(c.name@, filter) || n > 0 {
            1 + n
        } else {
            0
        }
    } else if shows_content(c.id@, c.name@, ctx, filter) {
        1
    } else {
        0
    }
}

/// The number of entries of the channel list.
pub open spec fn channel_entries(cs: Seq<Channel>, ctx: Option<PermissionContext>, filter: Seq<char>) -> nat
    decreases cs.len(),
{
    if cs.len() == 0 {
        0
    } else {
        channel_entries(cs.drop_last(), ctx, filter) + entries_of(cs.last(), ctx, filter)
    }
}

/// Whether the user may read the channel with the given id.
pub fn readable_exec(ctx: &Option<PermissionContext>, id: &str) -> (r: bool)
    ensures
        r == readable_id(*ctx, id@),
{
    match ctx {
        None => false,
        Some(c) => c.allows(id),
    }
}

/// Whether the name fits the filter.
pub fn name_fits_exec(name: &str, filter: &Vec<char>) -> (r: bool)
    ensures
        r == name_fits(name@, filter@),
{
    if filter.len() == 0 {
        return true;
    }
    let low = to_lowercase(name);
    let lv = chars_of(low.as_str());
    contains_exec(&lv, filter)
}

/// Whether a channel is listed with its content.
pub fn shows_content_exec(id: &str, name: &str, ctx: &Option<PermissionContext>, filter: &Vec<char>) -> (r: bool)
    ensures
        r == shows_content(id@, name@, *ctx, filter@),
{
    readable_exec(ctx, id) && name_fits_exec(name, filter)
}

/// How many list entries a channel makes.
pub fn entries_of_exec(c: &Channel, ctx: &Option<PermissionContext>, filter: &Vec<char>) -> (n: usize)
    requires
        entries_of(*c, *ctx, filter@) <= usize::MAX,
    ensures
        n == entries_of(*c, *ctx, filter@),
{
    if c.channel_type == 4 {
        let mut n: usize = 0;
        if let Some(cs) = &c.children {
            let mut i: usize = 0;
            while i < cs.len()
                invariant
                    i <= cs.len(),
                    n == shown_children(cs@.take(i as int), *ctx, filter@),
                    n <= i,
                decreases cs.len() - i,
            {
                let ghost t = cs@.take(i as int + 1);
                assert(t.drop_last() =~= cs@.take(i as int));
                if shows_content_exec(cs[i].id.as_str(), cs[i].name.as_str(), ctx, filter) {
                    n += 1;
                }
                i += 1;
            }
            assert(cs@.take(i as int) =~= cs@);
        }
        if name_fits_exec(c.name.as_str(), filter) || n > 0 {
            1 + n
        } else {
            0
        }
    } else if shows_content_exec(c.id.as_str(), c.name.as_str(), ctx, filter) {
        1
    } else {
        0
    }
}

/// The number of entries of the channel list.
pub fn channel_entries_exec(cs: &Vec<Channel>, ctx: &Option<PermissionContext>, filter: &Vec<char>) -> (n: usize)
    requires
        channel_entries(cs@, *ctx, filter@) <= usize::MAX,
    ensures
        n == channel_entries(cs@, *ctx, filter@),
{
    let mut n: usize = 0;
    let mut i: usize = 0;
    while i < cs.len()
        invariant
            i <= cs.len(),
            channel_entries(cs@, *ctx, filter@) <= usize::MAX,
            n == channel_entries(cs@.take(i as int), *ctx, filter@),
        decreases cs.len() - i,
    {
        let ghost t = cs@.take(i as int + 1);
        assert(t.drop_last() =~= cs@.take(i as int));
        proof {
            lemma_channel_entries_prefix(cs@, i as int + 1, *ctx, filter@);
            assert(t.last() == cs@[i as int]);
        }
        n = n + entries_of_exec(&cs[i], ctx, filter);
        i += 1;
    }
    assert(cs@.take(i as int) =~= cs@);
    n
}

proof fn lemma_channel_entries_prefix(cs: Seq<Channel>, k: int, ctx: Option<PermissionContext>, filter: Seq<char>)
    requires
        0 <= k <= cs.len(),
    ensures
        channel_entries(cs.take(k), ctx, filter) <= channel_entries(cs, ctx, filter),
    decreases cs.len() - k,
{
    if k < cs.len() {
        lemma_channel_entries_prefix(cs, k + 1, ctx, filter);
        assert(cs.take(k + 1).drop_last() =~= cs.take(k));
    } else {
        assert(cs.take(k) =~= cs);
    }
}


// ---------------------------------------------------------------------------
// Emojis fitting the filter
// ---------------------------------------------------------------------------

/// How many of the named emojis have a name starting with the filter.
pub open spec fn unicode_matches(m: Seq<(String, String)>, filter: Seq<char>) -> nat
    decreases m.len(),
{
    if m.len() == 0 {
        0
    } else {
        unicode_matches(m.drop_last(), filter) + if starts_with_seq(m.last().0@, filter) {
            1nat
        } else {
            0nat
        }
    }
}

/// How many of the guild's emojis have a name starting with the filter.
pub open spec fn custom_matches(m: Seq<Emoji>, filter: Seq<char>) -> nat
    decreases m.len(),
{
    if m.len() == 0 {
        0
    } else {
        custom_matches(m.drop_last(), filter) + if starts_with_seq(m.last().name@, filter) {
            1nat
        } else {
            0nat
        }
    }
}

/// How many emojis the emoji list offers.
pub open spec fn emoji_total(s: AppView) -> nat {
    unicode_matches(s.emoji_map, s.emoji_filter) + custom_matches(s.custom_emojis, s.emoji_filter)
}

impl App {
    /// How many emojis the emoji list offers: the named emojis and then the guild's emojis
    /// whose names start with the filter.
    pub fn emoji_total(&self) -> (n: usize)
        requires
            self.emoji_map.len() + self.custom_emojis.len() <= usize::MAX,
        ensures
            n == emoji_total(self@),
    {
        let mut a: usize = 0;
        let mut i: usize = 0;
        while i < self.emoji_map.len()
            invariant
                i <= self.emoji_map.len(),
                a == unicode_matches(self.emoji_map@.take(i as int), self.emoji_filter@),
                a <= i,
            decreases self.emoji_map.len() - i,
        {
            let ghost t = self.emoji_map@.take(i as int + 1);
            assert(t.drop_last() =~= self.emoji_map@.take(i as int));
            if str_starts_with(self.emoji_map[i].0.as_str(), self.emoji_filter.as_str()) {
                a += 1;
            }
            i += 1;
        }
        assert(self.emoji_map@.take(i as int) =~= self.emoji_map@);
        let mut b: usize = 0;
        let mut j: usize = 0;
        while j < self.custom_emojis.len()
            invariant
                j <= self.custom_emojis.len(),
                b == custom_matches(self.custom_emojis@.take(j as int), self.emoji_filter@),
                b <= j,
            decreases self.custom_emojis.len() - j,
        {
            let ghost t = self.custom_emojis@.take(j as int + 1);
            assert(t.drop_last() =~= self.custom_emojis@.take(j as int));
            if str_starts_with(self.custom_emojis[j].name.as_str(), self.emoji_filter.as_str()) {
                b += 1;
            }
            j += 1;
        }
        assert(self.custom_emojis@.take(j as int) =~= self.custom_emojis@);
        a + b
    }
}


// ---------------------------------------------------------------------------
// The emoji list
// ---------------------------------------------------------------------------

proof fn lemma_unicode_kept(m: Seq<(String, String)>, filter: Seq<char>)
    ensures
        kept(m, unicode_pred(filter)).len() == unicode_matches(m, filter),
    decreases m.len(),
{
    if m.len() > 0 {
        lemma_unicode_kept(m.drop_last(), filter);
    }
}

proof fn lemma_custom_kept(m: Seq<Emoji>, filter: Seq<char>)
    ensures
        kept(m, custom_pred(filter)).len() == custom_matches(m, filter),
    decreases m.len(),
{
    if m.len() > 0 {
        lemma_custom_kept(m.drop_last(), filter);
    }
}

/// The emoji index kept on the offered emojis: past the end it goes to the last one (to 0
/// when none is offered).
pub open spec fn clamped_emoji_index(s: AppView) -> usize {
    if emoji_total(s) == 0 {
        0
    } else if s.emoji_index < emoji_total(s) {
        s.emoji_index
    } else {
        (emoji_total(s) - 1) as usize
    }
}

impl App {
    /// The named emojis that the emoji list offers, in order.
    pub fn offered_unicode(&self) -> (r: Vec<(String, String)>)
        ensures
            r@ == kept(self@.emoji_map, unicode_pred(self@.emoji_filter)),
    {
        let ghost p = unicode_pred(self@.emoji_filter);
        let mut out: Vec<(String, String)> = Vec::new();
        let mut i: usize = 0;
        while i < self.emoji_map.len()
            invariant
                i <= self.emoji_map.len(),
                p == unicode_pred(self@.emoji_filter),
                out@ == kept(self.emoji_map@.take(i as int), p),
            decreases self.emoji_map.len() - i,
        {
            proof {
                assert(self.emoji_map@.take(i as int + 1).drop_last() =~= self.emoji_map@.take(i as int));
                assert(self.emoji_map@.take(i as int + 1).last() == self.emoji_map@[i as int]);
            }
            if str_starts_with(self.emoji_map[i].0.as_str(), self.emoji_filter.as_str()) {
                out.push((self.emoji_map[i].0.clone(), self.emoji_map[i].1.clone()));
            }
            i += 1;
        }
        assert(self.emoji_map@.take(i as int) =~= self.emoji_map@);
        out
    }

    /// The guild's emojis that the emoji list offers, in order.
    pub fn offered_custom(&self) -> (r: Vec<Emoji>)
        ensures
            r@ == kept(self@.custom_emojis, custom_pred(self@.emoji_filter)),
    {
        let ghost p = custom_pred(self@.emoji_filter);
        let mut out: Vec<Emoji> = Vec::new();
        let mut i: usize = 0;
        while i < self.custom_emojis.len()
            invariant
                i <= self.custom_emojis.len(),
                p == custom_pred(self@.emoji_filter),
                out@ == kept(self.custom_emojis@.take(i as int), p),
            decreases self.custom_emojis.len() - i,
        {
            proof {
                assert(self.custom_emojis@.take(i as int + 1).drop_last() =~= self.custom_emojis@.take(i as int));
                assert(self.custom_emojis@.take(i as int + 1).last() == self.custom_emojis@[i as int]);
            }
            if str_starts_with(self.custom_emojis[i].name.as_str(), self.emoji_filter.as_str()) {
                let e = &self.custom_emojis[i];
                out.push(Emoji { id: e.id.clone(), name: e.name.clone(), animated: e.animated });
            }
            i += 1;
        }
        assert(self.custom_emojis@.take(i as int) =~= self.custom_emojis@);
        out
    }

    /// Brings the emoji index back onto the offered emojis, as drawing the list does.
    pub fn clamp_emoji_index(&mut self)
        ensures
            final(self)@ == (AppView { emoji_index: clamped_emoji_index(old(self)@), ..old(self)@ }),
    {
        proof {
            lemma_unicode_kept(self@.emoji_map, self@.emoji_filter);
            lemma_custom_kept(self@.custom_emojis, self@.emoji_filter);
        }
        let u = self.offered_unicode().len();
        let c = self.offered_custom().len();
        if u > usize::MAX - c {
            assert(self@ =~= (AppView { emoji_index: clamped_emoji_index(old(self)@), ..old(self)@ }));
            return;
        }
        let total = u + c;
        if total == 0 {
            self.emoji_index = 0;
        } else if self.emoji_index >= total {
            self.emoji_index = total - 1;
        }
        assert(self@ =~= (AppView { emoji_index: clamped_emoji_index(old(self)@), ..old(self)@ }));
    }
}


// ---------------------------------------------------------------------------
// Moving the selection
// ---------------------------------------------------------------------------

/// The number of entries that the selection moves through on the current screen, when it
/// moves by its index.
pub open spec fn list_len(s: AppView) -> int {
    match s.state {
        AppState::Home => 3,
        AppState::SelectingDM => s.dms.len() as int,
        AppState::SelectingGuild => s.guilds.len() as int,
        AppState::SelectingChannel(_) => if s.channels.len() > 0 {
            channel_entries(s.channels, s.context, lowercase(s.search_input)) as int
        } else {
            0
        },
        _ => 0,
    }
}

/// Moving the selection does not fail: the index does not overflow and the channel list
/// that is moved through is not empty.
pub open spec fn move_ok(s: AppView, forward: bool, total: nat) -> bool {
    match s.state {
        AppState::SelectingChannel(_) => s.channels.len() > 0 ==> (list_len(s) <= usize::MAX && (forward ==> (
        list_len(s) > 0 && s.selection_index < usize::MAX)) && (!forward && s.selection_index == 0 ==> list_len(s)
            > 0)),
        AppState::Home | AppState::SelectingDM | AppState::SelectingGuild => list_len(s) > 0 && forward ==> s.selection_index < usize::MAX,
        AppState::EmojiSelection(_) => total > 0 && forward ==> s.emoji_index < usize::MAX,
        _ => true,
    }
}

/// The state after moving the selection one step (forward or back), going round at the
/// ends; in the emoji list the emoji index moves among the `total` emojis offered.
pub open spec fn after_move(s: AppView, forward: bool, total: nat) -> AppView {
    match s.state {
        AppState::EmojiSelection(_) => if total > 0 {
            AppView { emoji_index: step_index(s.emoji_index as int, total as int, forward) as usize, ..s }
        } else {
            s
        },
        AppState::Home | AppState::SelectingDM | AppState::SelectingGuild => if list_len(s) > 0 {
            AppView { selection_index: step_index(s.selection_index as int, list_len(s), forward) as usize, ..s }
        } else {
            s
        },
        AppState::SelectingChannel(_) => if s.channels.len() > 0 {
            AppView { selection_index: step_index(s.selection_index as int, list_len(s), forward) as usize, ..s }
        } else {
            s
        },
        _ => s,
    }
}

/// One step of an index through `len` items.
fn step_exec(sel: usize, len: usize, forward: bool) -> (r: usize)
    requires
        len > 0,
        forward ==> sel < usize::MAX,
    ensures
        r == step_index(sel as int, len as int, forward),
{
    if forward {
        (sel + 1) % len
    } else if sel == 0 {
        len - 1
    } else {
        sel - 1
    }
}

impl App {
    /// Moves the selection one step forward or back in the list on screen, going round at
    /// the ends.
    pub fn move_selection(&mut self, forward: bool, total: usize)
        requires
            move_ok(old(self)@, forward, total as nat),
        ensures
            final(self)@ == after_move(old(self)@, forward, total as nat),
    {
        let len: usize = match &self.state {
            AppState::Home => 3,
            AppState::SelectingDM => self.dms.len(),
            AppState::SelectingGuild => self.guilds.len(),
            AppState::SelectingChannel(_) => {
                if self.channels.len() > 0 {
                    let low = to_lowercase(self.search_input.as_str());
                    let filter = chars_of(low.as_str());
                    channel_entries_exec(&self.channels, &self.context, &filter)
                } else {
                    0
                }
            },
            AppState::EmojiSelection(_) => {
                if total > 0 {
                    self.emoji_index = step_exec(self.emoji_index, total, forward);
                }
                assert(self@ =~= after_move(old(self)@, forward, total as nat));
                return;
            },
            _ => 0,
        };
        assert(len == list_len(old(self)@) || !(old(self)@.state is Home || old(self)@.state is SelectingDM
            || old(self)@.state is SelectingGuild || old(self)@.state is SelectingChannel));
        if len > 0 {
            self.selection_index = step_exec(self.selection_index, len, forward);
        } else if !forward && self.selection_index > 0 && self.channels.len() > 0 {
            if let AppState::SelectingChannel(_) = &self.state {
                self.selection_index = self.selection_index - 1;
            }
        }
        assert(self@ =~= after_move(old(self)@, forward, total as nat));
    }
}


// ---------------------------------------------------------------------------
// Keeping the selection on a shown entry
// ---------------------------------------------------------------------------

/// How many entries the list of the current screen shows, under the search filter; `None`
/// on a screen without such a list.
pub open spec fn shown_len(s: AppView) -> Option<int> {
    match s.state {
        AppState::Home => Some(3),
        AppState::SelectingDM => Some(dm_list(s).len() as int),
        AppState::SelectingGuild => Some(guild_list(s).len() as int),
        AppState::SelectingChannel(_) => Some(channel_entries(s.channels, s.context, list_filter(s)) as int),
        _ => None,
    }
}

/// The selection kept on the shown list: past its end it goes to the last entry (to the
/// first when the list is empty); on other screens it stays.
pub open spec fn clamped_selection(s: AppView) -> usize {
    match shown_len(s) {
        Some(n) => if s.selection_index < n {
            s.selection_index
        } else if n == 0 {
            0
        } else {
            (n - 1) as usize
        },
        None => s.selection_index,
    }
}

impl App {
    /// Brings the selection back onto the list that the screen shows, as drawing does.
    pub fn clamp_selection(&mut self)
        ensures
            final(self)@ == (AppView { selection_index: clamped_selection(old(self)@), ..old(self)@ }),
    {
        let n: Option<usize> = match &self.state {
            AppState::Home => Some(3),
            AppState::SelectingDM => {
                let low = to_lowercase(self.search_input.as_str());
                let filter = chars_of(low.as_str());
                Some(dm_count(&self.dms, &filter))
            },
            AppState::SelectingGuild => {
                let low = to_lowercase(self.search_input.as_str());
                let filter = chars_of(low.as_str());
                Some(guild_count(&self.guilds, &filter))
            },
            AppState::SelectingChannel(_) => {
                let low = to_lowercase(self.search_input.as_str());
                let filter = chars_of(low.as_str());
                match channel_entries_checked(&self.channels, &self.context, &filter) {
                    Some(k) => Some(k),
                    None => None,
                }
            },
            _ => None,
        };
        if let Some(k) = n {
            if self.selection_index >= k {
                self.selection_index = if k == 0 {
                    0
                } else {
                    k - 1
                };
            }
        }
    }
}

} // verus!
