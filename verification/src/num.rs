use vstd::prelude::*;

use crate::text::{all_digits, chars_of, is_ascii_digit};

verus! {

/// The number that a string of decimal digits writes.
pub open spec fn digits_value(s: Seq<char>) -> nat
    decreases s.len(),
{
    if s.len() == 0 {
        0
    } else {
        digits_value(s.drop_last()) * 10 + ((s.last() as u32) - ('0' as u32)) as nat
    }
}

/// The number that `s` writes in the form that `u64::from_str` and `usize::from_str`
/// accept: an optional `+` and at least one decimal digit, nothing else.
pub open spec fn decimal_value(s: Seq<char>) -> Option<nat> {
    let d = if s.len() > 0 && s[0] == '+' {
        s.drop_first()
    } else {
        s
    };
    if d.len() > 0 && all_digits(d) {
        Some(digits_value(d))
    } else {
        None
    }
}

/// What `str::parse::<u64>` gives: the value, when it fits.
pub open spec fn parse_u64_spec(s: Seq<char>) -> Option<u64> {
    match decimal_value(s) {
        Some(v) => if v <= u64::MAX {
            Some(v as u64)
        } else {
            None
        },
        None => None,
    }
}

/// What `str::parse::<usize>` gives: the value, when it fits.
pub open spec fn parse_usize_spec(s: Seq<char>) -> Option<usize> {
    match decimal_value(s) {
        Some(v) => if v <= usize::MAX {
            Some(v as usize)
        } else {
            None
        },
        None => None,
    }
}

proof fn lemma_digits_value_mono(s: Seq<char>, k: int)
    requires
        0 <= k <= s.len(),
        all_digits(s),
    ensures
        digits_value(s.take(k)) <= digits_value(s),
    decreases s.len() - k,
{
    if k < s.len() {
        let t = s.take(k + 1);
        assert(t.drop_last() =~= s.take(k));
        lemma_digits_value_mono(s, k + 1);
    } else {
        assert(s.take(k) =~= s);
    }
}

/// Parses a decimal number as `str::parse::<u64>` does.
pub fn parse_u64(s: &str) -> (r: Option<u64>)
    ensures
        r == parse_u64_spec(s@),
{
    let v = chars_of(s);
    let start: usize = if v.len() > 0 && v[0] == '+' {
        1
    } else {
        0
    };
    let ghost d = v@.skip(start as int);
    assert(d == (if v@.len() > 0 && v@[0] == '+' {
        v@.drop_first()
    } else {
        v@
    })) by {
        if start == 1 {
            assert(v@.skip(1) =~= v@.drop_first());
        } else {
            assert(v@.skip(0) =~= v@);
        }
    }
    if start >= v.len() {
        return None;
    }
    let mut acc: u64 = 0;
    let mut i = start;
    while i < v.len()
        invariant
            start <= i <= v.len(),
            v@ == s@,
            d == v@.skip(start as int),
            d == (if s@.len() > 0 && s@[0] == '+' {
                s@.drop_first()
            } else {
                s@
            }),
            all_digits(d.take(i - start)),
            acc == digits_value(d.take(i - start)),
        decreases v.len() - i,
    {
        let c = v[i];
        let ghost t = d.take(i - start + 1);
        assert(t.drop_last() =~= d.take(i - start));
        assert(t.last() == c);
        if !(c >= '0' && c <= '9') {
            assert(!is_ascii_digit(d[i - start]));
            assert(!all_digits(d));
            assert(decimal_value(s@) is None);
            return None;
        }
        let digit = (c as u32 - '0' as u32) as u64;
        match acc.checked_mul(10) {
            None => {
                proof {
                    assert(all_digits(t));
                    assert(digits_value(t) == acc * 10 + digit);
                    if all_digits(d) {
                        lemma_digits_value_mono(d, i - start + 1);
                    }
                }
                return None;
            },
            Some(m) => match m.checked_add(digit) {
                None => {
                    proof {
                        assert(all_digits(t));
                        assert(digits_value(t) == acc * 10 + digit);
                        if all_digits(d) {
                            lemma_digits_value_mono(d, i - start + 1);
                        }
                    }
                    return None;
                },
                Some(n) => {
                    acc = n;
                },
            },
        }
        i += 1;
    }
    assert(d.take(i - start) =~= d);
    Some(acc)
}

/// Parses a decimal number as `str::parse::<usize>` does.
pub fn parse_usize(s: &str) -> (r: Option<usize>)
    ensures
        r == parse_usize_spec(s@),
{
    match parse_u64(s) {
        None => {
            assert(parse_usize_spec(s@) is None);
            None
        },
        Some(n) => {
            if n <= usize::MAX as u64 {
                Some(n as usize)
            } else {
                None
            }
        },
    }
}

/// `a` comes before `b` in the order of `String` (character by character, a proper prefix
/// first).
pub open spec fn seq_lt(a: Seq<char>, b: Seq<char>) -> bool
    decreases a.len(),
{
    if a.len() == 0 {
        b.len() > 0
    } else if b.len() == 0 {
        false
    } else if a[0] != b[0] {
        (a[0] as u32) < (b[0] as u32)
    } else {
        seq_lt(a.drop_first(), b.drop_first())
    }
}

/// Whether `a` is less than `b` in the order of `String`.
pub fn str_lt(a: &str, b: &str) -> (r: bool)
    ensures
        r == seq_lt(a@, b@),
{
    let va = chars_of(a);
    let vb = chars_of(b);
    let mut i: usize = 0;
    assert(va@.skip(0) =~= va@);
    assert(vb@.skip(0) =~= vb@);
    while i < va.len() && i < vb.len()
        invariant
            i <= va.len(),
            i <= vb.len(),
            va@ == a@,
            vb@ == b@,
            seq_lt(va@, vb@) == seq_lt(va@.skip(i as int), vb@.skip(i as int)),
        decreases va.len() - i,
    {
        if va[i] != vb[i] {
            assert(va@.skip(i as int)[0] == va@[i as int]);
            assert(vb@.skip(i as int)[0] == vb@[i as int]);
            let x = va[i] as u32;
            let y = vb[i] as u32;
            return x < y;
        }
        assert(va@.skip(i as int).drop_first() =~= va@.skip(i as int + 1));
        assert(vb@.skip(i as int).drop_first() =~= vb@.skip(i as int + 1));
        i += 1;
    }
    i == va.len() && i < vb.len()
}

/// The decimal digit for `d` (below ten).
pub open spec fn digit_char(d: nat) -> char {
    if d == 0 {
        '0'
    } else if d == 1 {
        '1'
    } else if d == 2 {
        '2'
    } else if d == 3 {
        '3'
    } else if d == 4 {
        '4'
    } else if d == 5 {
        '5'
    } else if d == 6 {
        '6'
    } else if d == 7 {
        '7'
    } else if d == 8 {
        '8'
    } else {
        '9'
    }
}

/// How `n` is written in decimal, without leading zeros (`u64::to_string`).
pub open spec fn decimal_text(n: nat) -> Seq<char>
    decreases n,
{
    if n < 10 {
        seq![digit_char(n)]
    } else {
        decimal_text(n / 10).push(digit_char(n % 10))
    }
}

fn digit_exec(d: u64) -> (c: char)
    requires
        d < 10,
    ensures
        c == digit_char(d as nat),
{
    if d == 0 {
        '0'
    } else if d == 1 {
        '1'
    } else if d == 2 {
        '2'
    } else if d == 3 {
        '3'
    } else if d == 4 {
        '4'
    } else if d == 5 {
        '5'
    } else if d == 6 {
        '6'
    } else if d == 7 {
        '7'
    } else if d == 8 {
        '8'
    } else {
        '9'
    }
}

/// Appends `n` written in decimal.
pub fn push_decimal(s: &mut String, n: u64)
    ensures
        final(s)@ == old(s)@ + decimal_text(n as nat),
    decreases n,
{
    if n >= 10 {
        push_decimal(s, n / 10);
    }
    crate::text::push_char(s, digit_exec(n % 10));
    assert(old(s)@ + decimal_text(n as nat) =~= if n >= 10 {
        (old(s)@ + decimal_text((n / 10) as nat)).push(digit_char((n % 10) as nat))
    } else {
        old(s)@.push(digit_char(n as nat))
    });
}

/// `n` written in decimal.
pub fn u64_text(n: u64) -> (r: String)
    ensures
        r@ == decimal_text(n as nat),
{
    let mut s = String::new();
    push_decimal(&mut s, n);
    assert(Seq::<char>::empty() + decimal_text(n as nat) =~= decimal_text(n as nat));
    s
}

} // verus!
