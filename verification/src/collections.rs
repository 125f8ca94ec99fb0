use vstd::prelude::*;

use crate::text::{chars_of, seq_eq, str_eq};

verus! {

// ---------------------------------------------------------------------------
// A map keyed by strings
// ---------------------------------------------------------------------------

/// The map that a list of entries stands for; a later entry for a key overrides an
/// earlier one.
pub open spec fn map_of<V: View>(e: Seq<(String, V)>) -> Map<Seq<char>, V::V>
    decreases e.len(),
{
    if e.len() == 0 {
        Map::empty()
    } else {
        map_of(e.drop_last()).insert(e.last().0@, e.last().1@)
    }
}

/// A finite map from strings (compared by their characters) to values.
#[derive(Debug)]
pub struct KeyMap<V: View> {
    pub entries: Vec<(String, V)>,
}

impl<V: View> View for KeyMap<V> {
    type V = Map<Seq<char>, V::V>;

    open spec fn view(&self) -> Map<Seq<char>, V::V> {
        map_of(self.entries@)
    }
}

pub proof fn lemma_map_of_finite<V: View>(e: Seq<(String, V)>)
    ensures
        map_of(e).dom().finite(),
    decreases e.len(),
{
    if e.len() > 0 {
        lemma_map_of_finite(e.drop_last());
    }
}

impl<V: View> KeyMap<V> {
    /// An empty map.
    pub fn new() -> (m: Self)
        ensures
            m@ == Map::<Seq<char>, V::V>::empty(),
    {
        KeyMap { entries: Vec::new() }
    }

    /// Where the value for `k` stands in the entries: the last entry with that key.
    fn find_last(&self, k: &Vec<char>) -> (r: Option<usize>)
        ensures
            match r {
                Some(i) => i < self.entries.len() && self.entries@[i as int].0@ == k@
                    && self@.contains_key(k@) && self@[k@] == self.entries@[i as int].1@,
                None => !self@.contains_key(k@),
            },
    {
        let mut i = self.entries.len();
        assert(self.entries@.take(i as int) =~= self.entries@);
        while i > 0
            invariant
                i <= self.entries.len(),
                self@.contains_key(k@) == map_of(self.entries@.take(i as int)).contains_key(k@),
                self@.contains_key(k@) ==> self@[k@] == map_of(self.entries@.take(i as int))[k@],
            decreases i,
        {
            let ghost t = self.entries@.take(i as int);
            assert(t.drop_last() =~= self.entries@.take(i as int - 1));
            let key = chars_of(self.entries[i - 1].0.as_str());
            if seq_eq(&key, k) {
                return Some(i - 1);
            }
            i -= 1;
        }
        None
    }

    /// Whether `k` has a value.
    pub fn contains_key(&self, k: &str) -> (r: bool)
        ensures
            r == self@.contains_key(k@),
    {
        let kv = chars_of(k);
        self.find_last(&kv).is_some()
    }

    /// The value for `k`, if any.
    pub fn get(&self, k: &str) -> (r: Option<&V>)
        ensures
            match r {
                Some(v) => self@.contains_key(k@) && self@[k@] == v@,
                None => !self@.contains_key(k@),
            },
    {
        let kv = chars_of(k);
        match self.find_last(&kv) {
            Some(i) => Some(&self.entries[i].1),
            None => None,
        }
    }

    /// Removes the value for `k`.
    pub fn remove(&mut self, k: &str)
        ensures
            final(self)@ == old(self)@.remove(k@),
    {
        let kv = chars_of(k);
        let mut kept: Vec<(String, V)> = Vec::new();
        let mut rest: Vec<(String, V)> = Vec::new();
        std::mem::swap(&mut rest, &mut self.entries);
        let ghost all = rest@;
        let n = rest.len();
        assert(all.len() == n);
        let mut i: usize = 0;
        assert(all.skip(0) =~= all);
        while rest.len() > 0
            invariant
                i + rest.len() == all.len(),
                all.len() <= usize::MAX,
                kv@ == k@,
                rest@ == all.skip(i as int),
                map_of(kept@) == map_of(all.take(i as int)).remove(k@),
            decreases rest.len(),
        {
            let ghost before = rest@;
            let item = rest.remove(0);
            assert(item == before[0]);
            assert(before[0] == all[i as int]);
            assert(rest@ =~= all.skip(i as int + 1));
            let ghost t = all.take(i as int + 1);
            assert(t.drop_last() =~= all.take(i as int));
            assert(t.last() == item);
            assert(map_of(t) == map_of(all.take(i as int)).insert(item.0@, item.1@));
            let key = chars_of(item.0.as_str());
            if seq_eq(&key, &kv) {
                assert(item.0@ == k@);
                assert(map_of(kept@) =~= map_of(t).remove(k@));
            } else {
                assert(item.0@ != k@);
                let ghost prev = kept@;
                let ghost x0 = item.0@;
                let ghost x1 = item.1@;
                kept.push(item);
                assert(kept@.drop_last() =~= prev);
                assert(kept@.last().0@ == x0);
                assert(map_of(kept@) == map_of(prev).insert(x0, x1));
                assert(map_of(kept@) =~= map_of(t).remove(k@));
            }
            i += 1;
        }
        assert(all.take(i as int) =~= all);
        self.entries = kept;
    }

    /// Sets the value for `k` to `v`.
    pub fn insert(&mut self, k: String, v: V)
        ensures
            final(self)@ == old(self)@.insert(k@, v@),
    {
        self.remove(k.as_str());
        let ghost prev = self.entries@;
        let ghost kk = k@;
        let ghost vv = v@;
        self.entries.push((k, v));
        assert(self.entries@.drop_last() =~= prev);
        assert(self@ =~= old(self)@.remove(kk).insert(kk, vv));
    }

    /// Sets the value for `k` to `v` unless `k` already has one.
    pub fn insert_if_absent(&mut self, k: String, v: V)
        ensures
            final(self)@ == if old(self)@.contains_key(k@) {
                old(self)@
            } else {
                old(self)@.insert(k@, v@)
            },
    {
        if !self.contains_key(k.as_str()) {
            self.insert(k, v);
        }
    }

    /// Sets the values of all the keys of `other`, whose values win.
    pub fn extend(&mut self, other: KeyMap<V>)
        ensures
            final(self)@ == old(self)@.union_prefer_right(other@),
    {
        let mut rest = other.entries;
        let ghost all = rest@;
        let n = rest.len();
        let mut i: usize = 0;
        assert(all.skip(0) =~= all);
        assert(old(self)@.union_prefer_right(map_of(all.take(0))) =~= old(self)@);
        while rest.len() > 0
            invariant
                i + rest.len() == all.len(),
                all.len() == n,
                rest@ == all.skip(i as int),
                self@ == old(self)@.union_prefer_right(map_of(all.take(i as int))),
            decreases rest.len(),
        {
            let ghost before = rest@;
            let item = rest.remove(0);
            assert(item == before[0]);
            assert(rest@ =~= all.skip(i as int + 1));
            let ghost t = all.take(i as int + 1);
            assert(t.drop_last() =~= all.take(i as int));
            assert(t.last() == item);
            let ghost x0 = item.0@;
            let ghost x1 = item.1@;
            self.insert(item.0, item.1);
            assert(self@ =~= old(self)@.union_prefer_right(map_of(t)));
            i += 1;
        }
        assert(all.take(i as int) =~= all);
    }
}

// ---------------------------------------------------------------------------
// A set of strings
// ---------------------------------------------------------------------------

pub open spec fn set_of(e: Seq<String>) -> Set<Seq<char>>
    decreases e.len(),
{
    if e.len() == 0 {
        Set::empty()
    } else {
        set_of(e.drop_last()).insert(e.last()@)
    }
}

/// A finite set of strings, compared by their characters.
#[derive(Debug)]
pub struct StrSet {
    pub items: Vec<String>,
}

impl View for StrSet {
    type V = Set<Seq<char>>;

    open spec fn view(&self) -> Set<Seq<char>> {
        set_of(self.items@)
    }
}

impl StrSet {
    pub fn new() -> (s: Self)
        ensures
            s@ == Set::<Seq<char>>::empty(),
    {
        StrSet { items: Vec::new() }
    }

    /// Whether `k` is in the set.
    pub fn contains(&self, k: &str) -> (r: bool)
        ensures
            r == self@.contains(k@),
    {
        let kv = chars_of(k);
        let mut i = self.items.len();
        assert(self.items@.take(i as int) =~= self.items@);
        while i > 0
            invariant
                i <= self.items.len(),
                kv@ == k@,
                self@.contains(k@) == set_of(self.items@.take(i as int)).contains(k@),
            decreases i,
        {
            let ghost t = self.items@.take(i as int);
            assert(t.drop_last() =~= self.items@.take(i as int - 1));
            let key = chars_of(self.items[i - 1].as_str());
            if seq_eq(&key, &kv) {
                return true;
            }
            i -= 1;
        }
        false
    }

    /// Adds `k` to the set.
    pub fn insert(&mut self, k: String)
        ensures
            final(self)@ == old(self)@.insert(k@),
    {
        if !self.contains(k.as_str()) {
            let ghost prev = self.items@;
            let ghost kk = k@;
            self.items.push(k);
            assert(self.items@.drop_last() =~= prev);
        } else {
            assert(old(self)@.insert(k@) =~= old(self)@);
        }
    }
}

// ---------------------------------------------------------------------------
// Who is typing where, and since when
// ---------------------------------------------------------------------------

pub open spec fn typing_of(e: Seq<(String, String, u64)>) -> Map<(Seq<char>, Seq<char>), u64>
    decreases e.len(),
{
    if e.len() == 0 {
        Map::empty()
    } else {
        typing_of(e.drop_last()).insert((e.last().0@, e.last().1@), e.last().2)
    }
}

pub open spec fn typing_key(x: (String, String, u64)) -> (Seq<char>, Seq<char>) {
    (x.0@, x.1@)
}

/// No two entries are for the same channel and user.
pub open spec fn keys_unique(e: Seq<(String, String, u64)>) -> bool {
    forall|i: int, j: int|
        0 <= i < j < e.len() ==> typing_key(#[trigger] e[i]) != typing_key(#[trigger] e[j])
}

/// The keys of the map are those of the entries.
pub proof fn lemma_typing_dom(e: Seq<(String, String, u64)>, k: (Seq<char>, Seq<char>))
    ensures
        typing_of(e).contains_key(k) <==> exists|i: int| 0 <= i < e.len() && typing_key(e[i]) == k,
    decreases e.len(),
{
    if e.len() > 0 {
        lemma_typing_dom(e.drop_last(), k);
        if typing_of(e.drop_last()).contains_key(k) {
            let i = choose|i: int| 0 <= i < e.drop_last().len() && typing_key(e.drop_last()[i]) == k;
            assert(typing_key(e[i]) == k);
        }
        if exists|i: int| 0 <= i < e.len() && typing_key(e[i]) == k {
            let i = choose|i: int| 0 <= i < e.len() && typing_key(e[i]) == k;
            if i < e.len() - 1 {
                assert(typing_key(e.drop_last()[i]) == k);
            }
        }
    }
}

/// For each channel and user, the time (in milliseconds) at which the user was last seen
/// typing there.
#[derive(Debug)]
pub struct TypingUsers {
    entries: Vec<(String, String, u64)>,
}

impl View for TypingUsers {
    type V = Map<(Seq<char>, Seq<char>), u64>;

    closed spec fn view(&self) -> Map<(Seq<char>, Seq<char>), u64> {
        typing_of(self.entries@)
    }
}

/// The entries of `m` whose time is at least `cutoff`.
pub open spec fn fresh_since(m: Map<(Seq<char>, Seq<char>), u64>, cutoff: int) -> Map<
    (Seq<char>, Seq<char>),
    u64,
> {
    m.restrict(m.dom().filter(|k: (Seq<char>, Seq<char>)| m[k] >= cutoff))
}

impl TypingUsers {
    #[verifier::type_invariant]
    spec fn wf(self) -> bool {
        keys_unique(self.entries@)
    }

    pub fn new() -> (t: Self)
        ensures
            t@ == Map::<(Seq<char>, Seq<char>), u64>::empty(),
    {
        TypingUsers { entries: Vec::new() }
    }

    /// Keeps the entries that are not for (`ch`, `user`) when `by_key`, else those not
    /// older than `cutoff`.
    fn retain_where(&mut self, ch: &Vec<char>, user: &Vec<char>, cutoff: u64, by_key: bool)
        ensures
            final(self)@ == if by_key {
                old(self)@.remove((ch@, user@))
            } else {
                fresh_since(old(self)@, cutoff as int)
            },
    {
        proof {
            use_type_invariant(&*self);
        }
        let mut kept: Vec<(String, String, u64)> = Vec::new();
        let mut rest: Vec<(String, String, u64)> = Vec::new();
        std::mem::swap(&mut rest, &mut self.entries);
        let ghost all = rest@;
        let n = rest.len();
        let mut i: usize = 0;
        assert(all.skip(0) =~= all);
        assert(typing_of(kept@) =~= (if by_key {
            typing_of(all.take(0)).remove((ch@, user@))
        } else {
            fresh_since(typing_of(all.take(0)), cutoff as int)
        }));
        while rest.len() > 0
            invariant
                i + rest.len() == all.len(),
                all.len() == n,
                keys_unique(all),
                keys_unique(kept@),
                rest@ == all.skip(i as int),
                forall|k: (Seq<char>, Seq<char>)| #[trigger] typing_of(kept@).contains_key(k) ==> typing_of(all.take(i as int)).contains_key(k),
                typing_of(kept@) == (if by_key {
                    typing_of(all.take(i as int)).remove((ch@, user@))
                } else {
                    fresh_since(typing_of(all.take(i as int)), cutoff as int)
                }),
            decreases rest.len(),
        {
            let ghost before = rest@;
            let item = rest.remove(0);
            assert(item == before[0]);
            assert(before[0] == all[i as int]);
            assert(rest@ =~= all.skip(i as int + 1));
            let ghost t = all.take(i as int + 1);
            assert(t.drop_last() =~= all.take(i as int));
            assert(t.last() == item);
            let ghost key = (item.0@, item.1@);
            assert(typing_of(t) == typing_of(all.take(i as int)).insert(key, item.2));
            proof {
                lemma_typing_dom(all.take(i as int), key);
                if typing_of(all.take(i as int)).contains_key(key) {
                    let j = choose|j: int| 0 <= j < all.take(i as int).len() && typing_key(all.take(i as int)[j]) == key;
                    assert(typing_key(all[j]) == typing_key(all[i as int]));
                }
            }
            let drop = if by_key {
                let a = chars_of(item.0.as_str());
                let b = chars_of(item.1.as_str());
                seq_eq(&a, ch) && seq_eq(&b, user)
            } else {
                item.2 < cutoff
            };
            if drop {
                if by_key {
                    assert(typing_of(kept@) =~= typing_of(t).remove((ch@, user@)));
                } else {
                    assert(typing_of(kept@) =~= fresh_since(typing_of(t), cutoff as int));
                }
            } else {
                let ghost prev = kept@;
                let ghost x2 = item.2;
                proof {
                    assert forall|j: int| 0 <= j < prev.len() implies typing_key(prev[j]) != key by {
                        lemma_typing_dom(prev, typing_key(prev[j]));
                    }
                }
                kept.push(item);
                assert(kept@.drop_last() =~= prev);
                assert(typing_of(kept@) == typing_of(prev).insert(key, x2));
                assert(keys_unique(kept@)) by {
                    assert forall|a: int, b: int| 0 <= a < b < kept@.len() implies typing_key(#[trigger] kept@[a]) != typing_key(#[trigger] kept@[b]) by {
                        if b == prev.len() {
                            assert(kept@[a] == prev[a]);
                        } else {
                            assert(kept@[a] == prev[a]);
                            assert(kept@[b] == prev[b]);
                        }
                    }
                }
                if by_key {
                    assert(typing_of(kept@) =~= typing_of(t).remove((ch@, user@)));
                } else {
                    assert(typing_of(kept@) =~= fresh_since(typing_of(t), cutoff as int));
                }
            }
            i += 1;
        }
        assert(all.take(i as int) =~= all);
        self.entries = kept;
    }

    /// Forgets that `user` is typing in `channel`.
    pub fn remove(&mut self, channel: &str, user: &str)
        ensures
            final(self)@ == old(self)@.remove((channel@, user@)),
    {
        let ch = chars_of(channel);
        let us = chars_of(user);
        self.retain_where(&ch, &us, 0, true);
    }

    /// Records that `user` is typing in `channel` since `at`.
    pub fn insert(&mut self, channel: String, user: String, at: u64)
        ensures
            final(self)@ == old(self)@.insert((channel@, user@), at),
    {
        self.remove(channel.as_str(), user.as_str());
        proof {
            use_type_invariant(&*self);
        }
        let ghost prev = self.entries@;
        let ghost key = (channel@, user@);
        proof {
            assert forall|j: int| 0 <= j < prev.len() implies typing_key(prev[j]) != key by {
                lemma_typing_dom(prev, typing_key(prev[j]));
            }
        }
        let mut entries: Vec<(String, String, u64)> = Vec::new();
        std::mem::swap(&mut entries, &mut self.entries);
        entries.push((channel, user, at));
        assert(entries@.drop_last() =~= prev);
        assert(keys_unique(entries@)) by {
            assert forall|a: int, b: int| 0 <= a < b < entries@.len() implies typing_key(#[trigger] entries@[a]) != typing_key(#[trigger] entries@[b]) by {
                assert(entries@[a] == prev[a]);
                if b < prev.len() {
                    assert(entries@[b] == prev[b]);
                }
            }
        }
        self.entries = entries;
        assert(self@ =~= old(self)@.remove(key).insert(key, at));
    }

    /// Forgets every entry older than `cutoff`.
    pub fn expire_before(&mut self, cutoff: u64)
        ensures
            final(self)@ == fresh_since(old(self)@, cutoff as int),
    {
        let ch: Vec<char> = Vec::new();
        let us: Vec<char> = Vec::new();
        self.retain_where(&ch, &us, cutoff, false);
    }

    /// The users typing in `channel`, in no particular order.
    pub fn users_in(&self, channel: &str) -> (r: Vec<String>)
        ensures
            forall|u: Seq<char>| #[trigger] self@.contains_key((channel@, u)) <==> exists|i: int| 0 <= i < r.len() && r@[i]@ == u,
    {
        proof {
            use_type_invariant(self);
        }
        let ch = chars_of(channel);
        let mut r: Vec<String> = Vec::new();
        let mut i: usize = 0;
        while i < self.entries.len()
            invariant
                i <= self.entries.len(),
                ch@ == channel@,
                forall|u: Seq<char>| #[trigger] typing_of(self.entries@.take(i as int)).contains_key((channel@, u)) <==> exists|j: int| 0 <= j < r.len() && r@[j]@ == u,
            decreases self.entries.len() - i,
        {
            let ghost t = self.entries@.take(i as int + 1);
            assert(t.drop_last() =~= self.entries@.take(i as int));
            let a = chars_of(self.entries[i].0.as_str());
            if seq_eq(&a, &ch) {
                let ghost prev = r@;
                r.push(self.entries[i].1.clone());
                assert(t.last() == self.entries@[i as int]);
                assert(typing_of(t) == typing_of(self.entries@.take(i as int)).insert((channel@, self.entries@[i as int].1@), self.entries@[i as int].2));
                assert forall|u: Seq<char>| #[trigger] typing_of(t).contains_key((channel@, u)) <==> exists|j: int| 0 <= j < r.len() && r@[j]@ == u by {
                    if u == self.entries@[i as int].1@ {
                        assert(r@[prev.len() as int]@ == u);
                    }
                    if exists|j: int| 0 <= j < prev.len() && prev[j]@ == u {
                        let j = choose|j: int| 0 <= j < prev.len() && prev[j]@ == u;
                        assert(r@[j] == prev[j]);
                    }
                    if exists|j: int| 0 <= j < r.len() && r@[j]@ == u {
                        let j = choose|j: int| 0 <= j < r.len() && r@[j]@ == u;
                        if j < prev.len() {
                            assert(r@[j] == prev[j]);
                        }
                    }
                }
            } else {
                assert forall|u: Seq<char>| #[trigger] typing_of(t).contains_key((channel@, u)) <==> exists|j: int| 0 <= j < r.len() && r@[j]@ == u by {
                    assert(typing_of(t).contains_key((channel@, u)) == typing_of(self.entries@.take(i as int)).contains_key((channel@, u)));
                }
            }
            i += 1;
        }
        assert(self.entries@.take(i as int) =~= self.entries@);
        r
    }
}

} // verus!
