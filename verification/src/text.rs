use vstd::prelude::*;

verus! {

// ---------------------------------------------------------------------------
// Specifications over character sequences
// ---------------------------------------------------------------------------

/// Index of the first occurrence of `pat` in `s` (what `str::find` gives, counted in
/// characters).
pub open spec fn find_first(s: Seq<char>, pat: Seq<char>) -> Option<int>
    decreases s.len(),
{
    if pat.len() == 0 {
        Some(0)
    } else if s.len() < pat.len() {
        None
    } else if s.take(pat.len() as int) == pat {
        Some(0)
    } else {
        match find_first(s.drop_first(), pat) {
            Some(i) => Some(i + 1),
            None => None,
        }
    }
}

/// `needle` occurs somewhere in `hay` (`str::contains`).
pub open spec fn contains_seq(hay: Seq<char>, needle: Seq<char>) -> bool {
    find_first(hay, needle) is Some
}

/// `pre` is a prefix of `s` (`str::starts_with`).
pub open spec fn starts_with_seq(s: Seq<char>, pre: Seq<char>) -> bool {
    pre.len() <= s.len() && s.take(pre.len() as int) == pre
}

/// Every non-overlapping occurrence of `pat`, scanned from the left, replaced by `rep`
/// (`str::replace` with a non-empty pattern).
pub open spec fn replace_all(s: Seq<char>, pat: Seq<char>, rep: Seq<char>) -> Seq<char>
    decreases s.len(),
{
    if s.len() == 0 {
        s
    } else if pat.len() > 0 && starts_with_seq(s, pat) {
        rep + replace_all(s.skip(pat.len() as int), pat, rep)
    } else {
        seq![s[0]] + replace_all(s.drop_first(), pat, rep)
    }
}

/// Items joined by `sep` (`[T]::join`).
pub open spec fn join_seq(items: Seq<Seq<char>>, sep: Seq<char>) -> Seq<char>
    decreases items.len(),
{
    if items.len() == 0 {
        Seq::empty()
    } else if items.len() == 1 {
        items[0]
    } else {
        join_seq(items.drop_last(), sep) + sep + items.last()
    }
}

/// The character sequences of a sequence of strings.
pub open spec fn string_views(v: Seq<String>) -> Seq<Seq<char>> {
    Seq::new(v.len(), |i: int| v[i]@)
}

pub open spec fn is_ascii_digit(c: char) -> bool {
    '0' <= c && c <= '9'
}

pub open spec fn is_ascii_alphanumeric(c: char) -> bool {
    ('0' <= c && c <= '9') || ('a' <= c && c <= 'z') || ('A' <= c && c <= 'Z')
}

pub open spec fn all_digits(s: Seq<char>) -> bool {
    forall|i: int| 0 <= i < s.len() ==> is_ascii_digit(#[trigger] s[i])
}

pub open spec fn all_alphanumeric(s: Seq<char>) -> bool {
    forall|i: int| 0 <= i < s.len() ==> is_ascii_alphanumeric(#[trigger] s[i])
}

/// The string that `str::to_lowercase` makes of a string.
pub uninterp spec fn lowercase(s: Seq<char>) -> Seq<char>;

// ---------------------------------------------------------------------------
// Lemmas
// ---------------------------------------------------------------------------

pub proof fn lemma_skip_drop_first(s: Seq<char>, i: int)
    requires
        0 <= i < s.len(),
    ensures
        s.skip(i).drop_first() == s.skip(i + 1),
{
    assert(s.skip(i).drop_first() =~= s.skip(i + 1));
}

pub proof fn lemma_skip_skip(s: Seq<char>, i: int, j: int)
    requires
        0 <= i,
        0 <= j,
        i + j <= s.len(),
    ensures
        s.skip(i).skip(j) == s.skip(i + j),
{
    assert(s.skip(i).skip(j) =~= s.skip(i + j));
}

/// When `pat` does not fit, or does not match at the front, the search moves on by one.
pub proof fn lemma_find_first_step(s: Seq<char>, pat: Seq<char>)
    requires
        pat.len() > 0,
        s.len() >= pat.len(),
        s.take(pat.len() as int) != pat,
    ensures
        find_first(s, pat) == (match find_first(s.drop_first(), pat) {
            Some(i) => Some(i + 1),
            None => None::<int>,
        }),
{
}

/// The first occurrence that `find_first` reports is indeed an occurrence.
pub proof fn lemma_find_first_matches(s: Seq<char>, pat: Seq<char>)
    ensures
        find_first(s, pat) matches Some(i) ==> 0 <= i && i + pat.len() <= s.len() && s.subrange(
            i,
            i + pat.len(),
        ) == pat,
    decreases s.len(),
{
    if pat.len() == 0 {
        assert(s.subrange(0, 0) =~= pat);
    } else if s.len() < pat.len() {
    } else if s.take(pat.len() as int) == pat {
        assert(s.subrange(0, pat.len() as int) =~= s.take(pat.len() as int));
    } else {
        lemma_find_first_matches(s.drop_first(), pat);
        if let Some(i) = find_first(s.drop_first(), pat) {
            assert(0 <= i && i + pat.len() <= s.drop_first().len());
            assert(s.subrange(i + 1, i + 1 + pat.len()) =~= s.drop_first().subrange(
                i,
                i + pat.len(),
            ));
        }
    }
}

// ---------------------------------------------------------------------------
// Trusted items for std string functions that vstd does not specify
// ---------------------------------------------------------------------------

/// std's `String::push`: the contract claims that the character is appended at the end.
#[verifier::external_body]
pub(crate) fn push_char(s: &mut String, c: char)
    ensures
        final(s)@ == old(s)@.push(c),
{
    s.push(c);
}

/// std's `str::to_lowercase`: the contract names the result `lowercase` of the argument.
#[verifier::external_body]
pub fn to_lowercase(s: &str) -> (r: String)
    ensures
        r@ == lowercase(s@),
{
    s.to_lowercase()
}

// ---------------------------------------------------------------------------
// Executable helpers
// ---------------------------------------------------------------------------

/// The characters of a string, in order.
pub fn chars_of(s: &str) -> (v: Vec<char>)
    ensures
        v@ == s@,
{
    let mut v: Vec<char> = Vec::new();
    for c in it: s.chars()
        invariant
            v@ == it.seq().take(it.index() as int),
            it.seq() == s@,
    {
        v.push(c);
    }
    v
}

/// A string made of the given characters.
pub fn string_of(v: &Vec<char>) -> (s: String)
    ensures
        s@ == v@,
{
    let mut s = String::new();
    let mut i: usize = 0;
    while i < v.len()
        invariant
            i <= v.len(),
            s@ == v@.take(i as int),
        decreases v.len() - i,
    {
        push_char(&mut s, v[i]);
        assert(v@.take(i as int + 1) =~= v@.take(i as int).push(v@[i as int]));
        i += 1;
    }
    assert(v@.take(v.len() as int) =~= v@);
    s
}

/// A string made of the characters `v[from..to]`.
pub fn string_of_range(v: &Vec<char>, from: usize, to: usize) -> (s: String)
    requires
        from <= to <= v.len(),
    ensures
        s@ == v@.subrange(from as int, to as int),
{
    let mut s = String::new();
    let mut i: usize = from;
    while i < to
        invariant
            from <= i <= to <= v.len(),
            s@ == v@.subrange(from as int, i as int),
        decreases to - i,
    {
        push_char(&mut s, v[i]);
        assert(v@.subrange(from as int, i as int + 1) =~= v@.subrange(from as int, i as int).push(
            v@[i as int],
        ));
        i += 1;
    }
    s
}

/// Appends the characters of `t` to `s`.
pub fn push_all(s: &mut String, t: &str)
    ensures
        final(s)@ == old(s)@ + t@,
{
    let v = chars_of(t);
    let mut i: usize = 0;
    while i < v.len()
        invariant
            i <= v.len(),
            v@ == t@,
            s@ == old(s)@ + v@.take(i as int),
        decreases v.len() - i,
    {
        push_char(s, v[i]);
        assert(old(s)@ + v@.take(i as int + 1) =~= (old(s)@ + v@.take(i as int)).push(v@[i as int]));
        i += 1;
    }
    assert(v@.take(v.len() as int) =~= v@);
}

/// `a` followed by `b`.
pub fn concat(a: &str, b: &str) -> (r: String)
    ensures
        r@ == a@ + b@,
{
    let mut r = String::new();
    push_all(&mut r, a);
    push_all(&mut r, b);
    assert(Seq::<char>::empty() + a@ + b@ =~= a@ + b@);
    r
}

/// A copy of an optional string.
pub fn copy_opt_string(s: &Option<String>) -> (r: Option<String>)
    ensures
        r == *s,
{
    match s {
        Some(t) => Some(t.clone()),
        None => None,
    }
}

/// Whether the two strings hold the same characters.
pub fn str_eq(a: &str, b: &str) -> (r: bool)
    ensures
        r == (a@ == b@),
{
    let va = chars_of(a);
    let vb = chars_of(b);
    seq_eq(&va, &vb)
}

/// Whether the two character vectors are equal.
pub fn seq_eq(a: &Vec<char>, b: &Vec<char>) -> (r: bool)
    ensures
        r == (a@ == b@),
{
    if a.len() != b.len() {
        return false;
    }
    let mut i: usize = 0;
    while i < a.len()
        invariant
            a.len() == b.len(),
            i <= a.len(),
            a@.take(i as int) == b@.take(i as int),
        decreases a.len() - i,
    {
        if a[i] != b[i] {
            assert(a@[i as int] != b@[i as int]);
            return false;
        }
        assert(a@.take(i as int + 1) =~= a@.take(i as int).push(a@[i as int]));
        assert(b@.take(i as int + 1) =~= b@.take(i as int).push(b@[i as int]));
        i += 1;
    }
    assert(a@ =~= a@.take(a.len() as int));
    assert(b@ =~= b@.take(b.len() as int));
    true
}

/// Whether `pat` occurs in `s` at character index `i`.
pub fn matches_at_exec(s: &Vec<char>, pat: &Vec<char>, i: usize) -> (r: bool)
    requires
        i <= s.len(),
    ensures
        r == starts_with_seq(s@.skip(i as int), pat@),
{
    if s.len() - i < pat.len() {
        return false;
    }
    let mut k: usize = 0;
    while k < pat.len()
        invariant
            i + pat.len() <= s.len(),
            k <= pat.len(),
            forall|j: int| 0 <= j < k ==> s@[i + j] == pat@[j],
        decreases pat.len() - k,
    {
        if s[i + k] != pat[k] {
            assert(s@.skip(i as int).take(pat.len() as int)[k as int] != pat@[k as int]);
            return false;
        }
        k += 1;
    }
    assert(s@.skip(i as int).take(pat.len() as int) =~= pat@);
    true
}

/// The first occurrence of `pat` in `s` at or after character index `from`.
pub fn find_from(s: &Vec<char>, pat: &Vec<char>, from: usize) -> (r: Option<usize>)
    requires
        from <= s.len(),
    ensures
        match r {
            Some(i) => from <= i && find_first(s@.skip(from as int), pat@) == Some(i - from),
            None => find_first(s@.skip(from as int), pat@) is None,
        },
{
    if pat.len() == 0 {
        return Some(from);
    }
    let mut i: usize = from;
    while i < s.len()
        invariant
            pat.len() > 0,
            from <= i <= s.len(),
            find_first(s@.skip(from as int), pat@) == (match find_first(
                s@.skip(i as int),
                pat@,
            ) {
                Some(k) => Some(k + (i - from)),
                None => None::<int>,
            }),
        decreases s.len() - i,
    {
        if s.len() - i < pat.len() {
            return None;
        }
        if matches_at_exec(s, pat, i) {
            return Some(i);
        }
        proof {
            lemma_find_first_step(s@.skip(i as int), pat@);
            lemma_skip_drop_first(s@, i as int);
        }
        i += 1;
    }
    None
}

/// Whether `needle` occurs in `hay`.
pub fn contains_exec(hay: &Vec<char>, needle: &Vec<char>) -> (r: bool)
    ensures
        r == contains_seq(hay@, needle@),
{
    let r = find_from(hay, needle, 0);
    assert(hay@.skip(0) =~= hay@);
    r.is_some()
}

/// Whether the string `hay` contains the string `needle`.
pub fn str_contains(hay: &str, needle: &str) -> (r: bool)
    ensures
        r == contains_seq(hay@, needle@),
{
    let h = chars_of(hay);
    let n = chars_of(needle);
    contains_exec(&h, &n)
}

/// Whether the string `s` starts with `pre`.
pub fn str_starts_with(s: &str, pre: &str) -> (r: bool)
    ensures
        r == starts_with_seq(s@, pre@),
{
    let v = chars_of(s);
    let p = chars_of(pre);
    let r = matches_at_exec(&v, &p, 0);
    assert(v@.skip(0) =~= v@);
    r
}

/// Every occurrence of `pat` replaced by `rep`, as `str::replace` does.
pub fn replace_all_exec(s: &Vec<char>, pat: &Vec<char>, rep: &Vec<char>) -> (r: Vec<char>)
    requires
        pat.len() > 0,
    ensures
        r@ == replace_all(s@, pat@, rep@),
{
    let mut out: Vec<char> = Vec::new();
    let mut i: usize = 0;
    assert(s@.skip(0) =~= s@);
    while i < s.len()
        invariant
            pat.len() > 0,
            i <= s.len(),
            out@ + replace_all(s@.skip(i as int), pat@, rep@) == replace_all(s@, pat@, rep@),
        decreases s.len() - i,
    {
        let ghost rest = s@.skip(i as int);
        if matches_at_exec(s, pat, i) {
            let mut k: usize = 0;
            let ghost out0 = out@;
            while k < rep.len()
                invariant
                    k <= rep.len(),
                    out@ == out0 + rep@.take(k as int),
                decreases rep.len() - k,
            {
                out.push(rep[k]);
                assert(out0 + rep@.take(k as int + 1) =~= (out0 + rep@.take(k as int)).push(
                    rep@[k as int],
                ));
                k += 1;
            }
            assert(rep@.take(rep.len() as int) =~= rep@);
            proof {
                lemma_skip_skip(s@, i as int, pat.len() as int);
                assert(out0 + (rep@ + replace_all(rest.skip(pat.len() as int), pat@, rep@))
                    =~= out@ + replace_all(rest.skip(pat.len() as int), pat@, rep@));
            }
            i += pat.len();
        } else {
            let ghost out0 = out@;
            out.push(s[i]);
            proof {
                lemma_skip_drop_first(s@, i as int);
                assert(out0 + (seq![rest[0]] + replace_all(rest.drop_first(), pat@, rep@))
                    =~= out@ + replace_all(rest.drop_first(), pat@, rep@));
            }
            i += 1;
        }
    }
    assert(s@.skip(i as int).len() == 0);
    assert(out@ + Seq::<char>::empty() =~= out@);
    out
}

/// Whether all the characters are ASCII digits.
pub fn all_digits_exec(s: &Vec<char>, from: usize, to: usize) -> (r: bool)
    requires
        from <= to <= s.len(),
    ensures
        r == all_digits(s@.subrange(from as int, to as int)),
{
    let mut i = from;
    while i < to
        invariant
            from <= i <= to <= s.len(),
            forall|j: int| from <= j < i ==> is_ascii_digit(#[trigger] s@[j]),
        decreases to - i,
    {
        if !(s[i] >= '0' && s[i] <= '9') {
            assert(!is_ascii_digit(s@.subrange(from as int, to as int)[i - from]));
            return false;
        }
        i += 1;
    }
    assert forall|j: int| 0 <= j < to - from implies is_ascii_digit(
        #[trigger] s@.subrange(from as int, to as int)[j],
    ) by {
        assert(s@.subrange(from as int, to as int)[j] == s@[from + j]);
    }
    true
}

/// Whether all the characters are ASCII letters or digits.
pub fn all_alphanumeric_exec(s: &Vec<char>, from: usize, to: usize) -> (r: bool)
    requires
        from <= to <= s.len(),
    ensures
        r == all_alphanumeric(s@.subrange(from as int, to as int)),
{
    let mut i = from;
    while i < to
        invariant
            from <= i <= to <= s.len(),
            forall|j: int| from <= j < i ==> is_ascii_alphanumeric(#[trigger] s@[j]),
        decreases to - i,
    {
        let c = s[i];
        if !((c >= '0' && c <= '9') || (c >= 'a' && c <= 'z') || (c >= 'A' && c <= 'Z')) {
            assert(!is_ascii_alphanumeric(s@.subrange(from as int, to as int)[i - from]));
            return false;
        }
        i += 1;
    }
    assert forall|j: int| 0 <= j < to - from implies is_ascii_alphanumeric(
        #[trigger] s@.subrange(from as int, to as int)[j],
    ) by {
        assert(s@.subrange(from as int, to as int)[j] == s@[from + j]);
    }
    true
}

/// The items joined by `sep`.
pub fn join_strings(items: &Vec<String>, sep: &str) -> (r: String)
    ensures
        r@ == join_seq(string_views(items@), sep@),
{
    let ghost views = string_views(items@);
    let mut r = String::new();
    let mut i: usize = 0;
    while i < items.len()
        invariant
            i <= items.len(),
            views == string_views(items@),
            r@ == join_seq(views.take(i as int), sep@),
        decreases items.len() - i,
    {
        let ghost before = r@;
        if i > 0 {
            push_all(&mut r, sep);
        }
        push_all(&mut r, items[i].as_str());
        proof {
            let t = views.take(i as int + 1);
            assert(t.drop_last() =~= views.take(i as int));
            assert(t.last() == items@[i as int]@);
            if i == 0 {
                assert(t.len() == 1);
                assert(r@ =~= t[0]);
            }
        }
        i += 1;
    }
    assert(views.take(items.len() as int) =~= views);
    r
}


// ---------------------------------------------------------------------------
// Whitespace
// ---------------------------------------------------------------------------

/// `c` has Unicode's White_Space property (`char::is_whitespace`).
pub open spec fn is_space(c: char) -> bool {
    let u = c as u32;
    (0x9 <= u <= 0xD) || u == 0x20 || u == 0x85 || u == 0xA0 || u == 0x1680 || (0x2000 <= u <= 0x200A)
        || u == 0x2028 || u == 0x2029 || u == 0x202F || u == 0x205F || u == 0x3000
}

/// Whether `c` has Unicode's White_Space property.
pub fn is_space_exec(c: char) -> (r: bool)
    ensures
        r == is_space(c),
{
    let u = c as u32;
    (0x9 <= u && u <= 0xD) || u == 0x20 || u == 0x85 || u == 0xA0 || u == 0x1680 || (0x2000 <= u && u
        <= 0x200A) || u == 0x2028 || u == 0x2029 || u == 0x202F || u == 0x205F || u == 0x3000
}

/// The text without the whitespace at its start (`str::trim_start`).
pub open spec fn trimmed_start(s: Seq<char>) -> Seq<char>
    decreases s.len(),
{
    if s.len() > 0 && is_space(s[0]) {
        trimmed_start(s.drop_first())
    } else {
        s
    }
}

/// The text without the whitespace at its end (`str::trim_end`).
pub open spec fn trimmed_end(s: Seq<char>) -> Seq<char>
    decreases s.len(),
{
    if s.len() > 0 && is_space(s.last()) {
        trimmed_end(s.drop_last())
    } else {
        s
    }
}

/// The text without the whitespace at either end (`str::trim`).
pub open spec fn trimmed(s: Seq<char>) -> Seq<char> {
    trimmed_end(trimmed_start(s))
}

/// How many characters of whitespace `v` starts with, and the text after them.
fn space_prefix(v: &Vec<char>) -> (k: usize)
    ensures
        k <= v.len(),
        trimmed_start(v@) == v@.skip(k as int),
{
    let mut k: usize = 0;
    assert(v@.skip(0) =~= v@);
    while k < v.len() && is_space_exec(v[k])
        invariant
            k <= v.len(),
            trimmed_start(v@) == trimmed_start(v@.skip(k as int)),
        decreases v.len() - k,
    {
        assert(v@.skip(k as int).drop_first() =~= v@.skip(k as int + 1));
        k += 1;
    }
    k
}

/// The text without the whitespace at its start.
pub fn trim_start(s: &str) -> (r: String)
    ensures
        r@ == trimmed_start(s@),
{
    let v = chars_of(s);
    let k = space_prefix(&v);
    assert(v@.subrange(k as int, v.len() as int) =~= v@.skip(k as int));
    string_of_range(&v, k, v.len())
}

/// The text without the whitespace at either end.
pub fn trim(s: &str) -> (r: String)
    ensures
        r@ == trimmed(s@),
{
    let v = chars_of(s);
    let k = space_prefix(&v);
    let ghost t = v@.skip(k as int);
    let mut e: usize = v.len();
    while e > k && is_space_exec(v[e - 1])
        invariant
            k <= e <= v.len(),
            t == v@.skip(k as int),
            trimmed_end(t) == trimmed_end(v@.subrange(k as int, e as int)),
        decreases e,
    {
        assert(v@.subrange(k as int, e as int).drop_last() =~= v@.subrange(k as int, e as int - 1));
        e -= 1;
    }
    assert(v@.subrange(k as int, v.len() as int) =~= t);
    string_of_range(&v, k, e)
}


/// Whether the lower-cased text holds the lower-cased filter.
pub fn lower_contains(text: &str, filter: &str) -> (r: bool)
    ensures
        r == contains_seq(lowercase(text@), lowercase(filter@)),
{
    let a = to_lowercase(text);
    let b = to_lowercase(filter);
    str_contains(a.as_str(), b.as_str())
}

} // verus!
