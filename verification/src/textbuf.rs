use vstd::prelude::*;

verus! {

// A text buffer is edited at byte offsets into its UTF-8 encoding, as a `String` is.
// The contents are a character sequence; a byte offset is valid (a character boundary)
// when it is the encoded length of some prefix.

/// The number of bytes that the UTF-8 encoding of `c` takes (`char::len_utf8`).
pub open spec fn char_len(c: char) -> nat {
    if (c as u32) < 0x80 {
        1
    } else if (c as u32) < 0x800 {
        2
    } else if (c as u32) < 0x10000 {
        3
    } else {
        4
    }
}

/// The number of bytes that the UTF-8 encoding of `s` takes (`str::len`).
pub open spec fn byte_len(s: Seq<char>) -> nat
    decreases s.len(),
{
    if s.len() == 0 {
        0
    } else {
        byte_len(s.drop_last()) + char_len(s.last())
    }
}

/// The byte offset of character index `k`.
pub open spec fn offset_of(s: Seq<char>, k: int) -> nat {
    byte_len(s.take(k))
}

/// `b` is a character boundary of `s` (`str::is_char_boundary`).
pub open spec fn is_boundary(s: Seq<char>, b: int) -> bool {
    exists|k: int| 0 <= k <= s.len() && offset_of(s, k) == b
}

/// The character index at the character boundary `b`.
pub open spec fn index_at(s: Seq<char>, b: int) -> int {
    choose|k: int| 0 <= k <= s.len() && offset_of(s, k) == b
}

/// The character just before the boundary `b` (`s[..b].chars().next_back()`).
pub open spec fn char_before(s: Seq<char>, b: int) -> Option<char> {
    if index_at(s, b) > 0 {
        Some(s[index_at(s, b) - 1])
    } else {
        None
    }
}

pub proof fn lemma_char_len_pos(c: char)
    ensures
        1 <= char_len(c) <= 4,
{
}

pub proof fn lemma_byte_len_push(s: Seq<char>, c: char)
    ensures
        byte_len(s.push(c)) == byte_len(s) + char_len(c),
{
    assert(s.push(c).drop_last() =~= s);
}

pub proof fn lemma_offset_step(s: Seq<char>, k: int)
    requires
        0 <= k < s.len(),
    ensures
        offset_of(s, k + 1) == offset_of(s, k) + char_len(s[k]),
{
    assert(s.take(k + 1) =~= s.take(k).push(s[k]));
    lemma_byte_len_push(s.take(k), s[k]);
}

/// Offsets grow strictly with the character index.
pub proof fn lemma_offset_strict(s: Seq<char>, i: int, j: int)
    requires
        0 <= i < j <= s.len(),
    ensures
        offset_of(s, i) < offset_of(s, j),
    decreases j - i,
{
    lemma_offset_step(s, j - 1);
    if i < j - 1 {
        lemma_offset_strict(s, i, j - 1);
    }
}

pub proof fn lemma_offset_mono(s: Seq<char>, i: int, j: int)
    requires
        0 <= i <= j <= s.len(),
    ensures
        offset_of(s, i) <= offset_of(s, j),
{
    if i < j {
        lemma_offset_strict(s, i, j);
    }
}

/// A boundary has exactly one character index.
pub proof fn lemma_index_at(s: Seq<char>, k: int)
    requires
        0 <= k <= s.len(),
    ensures
        is_boundary(s, offset_of(s, k) as int),
        index_at(s, offset_of(s, k) as int) == k,
{
    let b = offset_of(s, k) as int;
    assert(0 <= k <= s.len() && offset_of(s, k) == b);
    let k2 = index_at(s, b);
    if k2 < k {
        lemma_offset_strict(s, k2, k);
    } else if k < k2 {
        lemma_offset_strict(s, k, k2);
    }
}

pub proof fn lemma_offset_zero(s: Seq<char>)
    ensures
        offset_of(s, 0) == 0,
        is_boundary(s, 0),
        index_at(s, 0) == 0,
{
    assert(s.take(0).len() == 0);
    lemma_index_at(s, 0);
}

pub proof fn lemma_offset_full(s: Seq<char>)
    ensures
        offset_of(s, s.len() as int) == byte_len(s),
        is_boundary(s, byte_len(s) as int),
        index_at(s, byte_len(s) as int) == s.len(),
{
    assert(s.take(s.len() as int) =~= s);
    lemma_index_at(s, s.len() as int);
}

/// The byte length of a concatenation.
pub proof fn lemma_byte_len_concat(a: Seq<char>, b: Seq<char>)
    ensures
        byte_len(a + b) == byte_len(a) + byte_len(b),
    decreases b.len(),
{
    if b.len() == 0 {
        assert(a + b =~= a);
    } else {
        assert((a + b).drop_last() =~= a + b.drop_last());
        lemma_byte_len_concat(a, b.drop_last());
    }
}

// ---------------------------------------------------------------------------
// Executable operations
// ---------------------------------------------------------------------------

/// `char::len_utf8`.
pub fn char_len_exec(c: char) -> (n: usize)
    ensures
        n == char_len(c),
{
    let u = c as u32;
    if u < 0x80 {
        1
    } else if u < 0x800 {
        2
    } else if u < 0x10000 {
        3
    } else {
        4
    }
}

/// The byte length of the buffer (`str::len`).
pub fn byte_len_exec(v: &Vec<char>) -> (n: usize)
    requires
        byte_len(v@) <= usize::MAX,
    ensures
        n == byte_len(v@),
{
    let mut n: usize = 0;
    let mut i: usize = 0;
    while i < v.len()
        invariant
            i <= v.len(),
            byte_len(v@) <= usize::MAX,
            n == offset_of(v@, i as int),
        decreases v.len() - i,
    {
        proof {
            lemma_offset_step(v@, i as int);
            lemma_offset_mono(v@, i as int + 1, v.len() as int);
            lemma_offset_full(v@);
        }
        n = n + char_len_exec(v[i]);
        i += 1;
    }
    proof {
        lemma_offset_full(v@);
    }
    n
}

/// The character index at byte offset `b`, if `b` is a character boundary.
pub fn index_at_exec(v: &Vec<char>, b: usize) -> (r: Option<usize>)
    ensures
        match r {
            Some(k) => is_boundary(v@, b as int) && k == index_at(v@, b as int) && k <= v.len()
                && offset_of(v@, k as int) == b,
            None => !is_boundary(v@, b as int),
        },
{
    let mut off: usize = 0;
    let mut i: usize = 0;
    proof {
        lemma_offset_zero(v@);
    }
    while i <= v.len()
        invariant
            i <= v.len(),
            off == offset_of(v@, i as int),
            off <= b,
            forall|j: int| 0 <= j < i ==> offset_of(v@, j) < b,
        decreases v.len() - i,
    {
        if off == b {
            proof {
                lemma_index_at(v@, i as int);
            }
            return Some(i);
        }
        if i == v.len() {
            proof {
                assert forall|j: int| 0 <= j <= v.len() implies offset_of(v@, j) != b by {
                    if j == v.len() {
                        assert(off != b);
                    }
                }
            }
            return None;
        }
        let w = char_len_exec(v[i]);
        proof {
            lemma_offset_step(v@, i as int);
        }
        if b - off < w {
            // the next boundary lies beyond b
            proof {
                assert forall|j: int| 0 <= j <= v.len() implies offset_of(v@, j) != b by {
                    if j > i {
                        lemma_offset_mono(v@, i as int + 1, j);
                    }
                }
            }
            return None;
        }
        off = off + w;
        i += 1;
    }
    None
}

/// `s` with `c` inserted at character index `k`.
pub open spec fn insert_at(s: Seq<char>, k: int, c: char) -> Seq<char> {
    s.take(k).push(c) + s.skip(k)
}

/// `s` with `t` inserted at character index `k`.
pub open spec fn insert_seq_at(s: Seq<char>, k: int, t: Seq<char>) -> Seq<char> {
    s.take(k) + t + s.skip(k)
}

/// `s` without the character at index `k`.
pub open spec fn remove_at(s: Seq<char>, k: int) -> Seq<char> {
    s.take(k) + s.skip(k + 1)
}

/// Inserting a character at index `k` moves the boundary after it by its length.
pub proof fn lemma_insert_offset(s: Seq<char>, k: int, c: char)
    requires
        0 <= k <= s.len(),
    ensures
        offset_of(insert_at(s, k, c), k + 1) == offset_of(s, k) + char_len(c),
        insert_at(s, k, c).len() == s.len() + 1,
{
    let t = insert_at(s, k, c);
    assert(t.take(k + 1) =~= s.take(k).push(c));
    lemma_byte_len_push(s.take(k), c);
}

/// Inserting a sequence at index `k` moves the boundary after it by its byte length.
pub proof fn lemma_insert_seq_offset(s: Seq<char>, k: int, t: Seq<char>)
    requires
        0 <= k <= s.len(),
    ensures
        offset_of(insert_seq_at(s, k, t), k + t.len()) == offset_of(s, k) + byte_len(t),
        insert_seq_at(s, k, t).len() == s.len() + t.len(),
{
    let u = insert_seq_at(s, k, t);
    assert(u.take(k + t.len()) =~= s.take(k) + t);
    lemma_byte_len_concat(s.take(k), t);
}

/// Removing the character before index `k` moves the boundary back by its length.
pub proof fn lemma_remove_offset(s: Seq<char>, k: int)
    requires
        0 < k <= s.len(),
    ensures
        offset_of(remove_at(s, k - 1), k - 1) == offset_of(s, k) - char_len(s[k - 1]),
        remove_at(s, k - 1).len() == s.len() - 1,
{
    let t = remove_at(s, k - 1);
    assert(t.take(k - 1) =~= s.take(k - 1));
    lemma_offset_step(s, k - 1);
}

/// Removing a character takes its length off the byte length.
pub proof fn lemma_byte_len_remove(s: Seq<char>, k: int)
    requires
        0 <= k < s.len(),
    ensures
        byte_len(remove_at(s, k)) == byte_len(s) - char_len(s[k]),
{
    lemma_byte_len_concat(s.take(k), s.skip(k + 1));
    lemma_byte_len_concat(s.take(k).push(s[k]), s.skip(k + 1));
    lemma_byte_len_push(s.take(k), s[k]);
    assert(s.take(k).push(s[k]) + s.skip(k + 1) =~= s);
}

/// A text with a character in it takes at least one byte.
pub proof fn lemma_byte_len_nonempty(s: Seq<char>)
    requires
        s.len() > 0,
    ensures
        byte_len(s) >= 1,
{
    lemma_char_len_pos(s.last());
}

/// Inserting a character adds its length to the byte length.
pub proof fn lemma_byte_len_insert(s: Seq<char>, k: int, c: char)
    requires
        0 <= k <= s.len(),
    ensures
        byte_len(insert_at(s, k, c)) == byte_len(s) + char_len(c),
{
    lemma_byte_len_concat(s.take(k).push(c), s.skip(k));
    lemma_byte_len_push(s.take(k), c);
    lemma_byte_len_concat(s.take(k), s.skip(k));
    assert(s.take(k) + s.skip(k) =~= s);
}

/// Inserts `c` at character index `k`.
pub fn insert_char(v: &mut Vec<char>, k: usize, c: char)
    requires
        k <= old(v).len(),
    ensures
        final(v)@ == insert_at(old(v)@, k as int, c),
{
    v.insert(k, c);
    assert(v@ =~= insert_at(old(v)@, k as int, c));
}

/// Inserts the characters of `t` at character index `k`.
pub fn insert_chars(v: &mut Vec<char>, k: usize, t: &Vec<char>)
    requires
        k <= old(v).len(),
    ensures
        final(v)@ == insert_seq_at(old(v)@, k as int, t@),
{
    let mut i: usize = 0;
    while i < t.len()
        invariant
            k <= old(v).len(),
            i <= t.len(),
            v.len() == old(v).len() + i,
            v@ == insert_seq_at(old(v)@, k as int, t@.take(i as int)),
        decreases t.len() - i,
    {
        v.insert(k + i, t[i]);
        assert(v@ =~= insert_seq_at(old(v)@, k as int, t@.take(i as int + 1)));
        i += 1;
    }
    assert(t@.take(t.len() as int) =~= t@);
}

/// Removes the character at index `k`.
pub fn remove_char(v: &mut Vec<char>, k: usize)
    requires
        k < old(v).len(),
    ensures
        final(v)@ == remove_at(old(v)@, k as int),
{
    v.remove(k);
    assert(v@ =~= remove_at(old(v)@, k as int));
}

/// Removes the characters at indices `from..to`.
pub fn remove_range(v: &mut Vec<char>, from: usize, to: usize)
    requires
        from <= to <= old(v).len(),
    ensures
        final(v)@ == old(v)@.take(from as int) + old(v)@.skip(to as int),
{
    let mut n = to - from;
    while n > 0
        invariant
            from <= to <= old(v).len(),
            n <= to - from,
            v@ == old(v)@.take(from as int) + old(v)@.skip(to - n),
        decreases n,
    {
        v.remove(from);
        assert(v@ =~= old(v)@.take(from as int) + old(v)@.skip(to - (n - 1)));
        n -= 1;
    }
}

} // verus!
