//! Reading a field of the kernel's memory report (`/proc/meminfo`): the
//! first line that starts with the field's name, its second
//! whitespace-separated word, read as a decimal number of KiB.
use vstd::prelude::*;

verus! {

/// Whether `b` separates words: space, tab, carriage return or newline.
pub open spec fn is_ws(b: u8) -> bool {
    b == 32u8 || b == 9u8 || b == 13u8 || b == 10u8
}

/// Whether `b` is an ASCII decimal digit.
pub open spec fn is_digit(b: u8) -> bool {
    48u8 <= b <= 57u8
}

/// First index at or after `i` that holds no separator (or the end).
pub open spec fn skip_ws(s: Seq<u8>, i: int) -> int
    decreases s.len() - i,
{
    if i < 0 || i >= s.len() || !is_ws(s[i]) {
        i
    } else {
        skip_ws(s, i + 1)
    }
}

/// First index at or after `i` that holds a separator (or the end).
pub open spec fn skip_word(s: Seq<u8>, i: int) -> int
    decreases s.len() - i,
{
    if i < 0 || i >= s.len() || is_ws(s[i]) {
        i
    } else {
        skip_word(s, i + 1)
    }
}

/// First index at or after `i` that holds a newline (or the end).
pub open spec fn line_end(s: Seq<u8>, i: int) -> int
    decreases s.len() - i,
{
    if i < 0 || i >= s.len() || s[i] == 10u8 {
        i
    } else {
        line_end(s, i + 1)
    }
}

/// The number the decimal digits `d` spell.
pub open spec fn decimal(d: Seq<u8>) -> nat
    decreases d.len(),
{
    if d.len() == 0 {
        0
    } else {
        decimal(d.drop_last()) * 10 + (d.last() - 48u8) as nat
    }
}

/// The second word of `line`, read as a decimal number, if it is one.
pub open spec fn second_word_value(line: Seq<u8>) -> Option<nat> {
    let a = skip_ws(line, skip_word(line, skip_ws(line, 0)));
    let b = skip_word(line, a);
    let w = line.subrange(a, b);
    if a < b && forall|k: int| 0 <= k < w.len() ==> is_digit(#[trigger] w[k]) {
        Some(decimal(w))
    } else {
        None
    }
}

/// The value of the first line at or after `i` that starts with `key`.
pub open spec fn field_from(s: Seq<u8>, key: Seq<u8>, i: int) -> Option<nat>
    decreases s.len() - i,
{
    if i < 0 || i >= s.len() {
        None
    } else {
        let e = line_end(s, i);
        if e < i || e > s.len() {
            None
        } else if e - i >= key.len() && s.subrange(i, i + key.len()) == key {
            second_word_value(s.subrange(i, e))
        } else if e < s.len() {
            field_from(s, key, e + 1)
        } else {
            None
        }
    }
}

proof fn lemma_line_end_bounds(s: Seq<u8>, i: int)
    requires
        0 <= i <= s.len(),
    ensures
        i <= line_end(s, i) <= s.len(),
    decreases s.len() - i,
{
    if i < s.len() && s[i] != 10u8 {
        lemma_line_end_bounds(s, i + 1);
    }
}

fn find_skip(s: &[u8], start: usize, words: bool) -> (r: usize)
    requires
        start <= s@.len(),
    ensures
        words ==> r == skip_word(s@, start as int),
        !words ==> r == skip_ws(s@, start as int),
        start <= r <= s@.len(),
{
    let mut i = start;
    while i < s.len()
        invariant
            start <= i <= s@.len(),
            words ==> skip_word(s@, i as int) == skip_word(s@, start as int),
            !words ==> skip_ws(s@, i as int) == skip_ws(s@, start as int),
        decreases s@.len() - i,
    {
        let b = s[i];
        let ws = b == 32u8 || b == 9u8 || b == 13u8 || b == 10u8;
        if ws == words {
            return i;
        }
        i = i + 1;
    }
    i
}

fn find_line_end(s: &[u8], start: usize) -> (r: usize)
    requires
        start <= s@.len(),
    ensures
        r == line_end(s@, start as int),
        start <= r <= s@.len(),
{
    let mut i = start;
    while i < s.len()
        invariant
            start <= i <= s@.len(),
            line_end(s@, i as int) == line_end(s@, start as int),
        decreases s@.len() - i,
    {
        if s[i] == 10u8 {
            return i;
        }
        i = i + 1;
    }
    i
}

/// The second word of `line` as a decimal number; `None` when it is missing,
/// holds anything but digits, or does not fit in a `u64`.
pub fn parse_second_word(line: &[u8]) -> (r: Option<u64>)
    ensures
        r matches Some(v) ==> second_word_value(line@) == Some(v as nat),
        r is None ==> second_word_value(line@) is None || second_word_value(line@).unwrap() > u64::MAX,
{
    let first = find_skip(line, 0, false);
    let after_first = find_skip(line, first, true);
    let a = find_skip(line, after_first, false);
    let b = find_skip(line, a, true);
    let ghost w = line@.subrange(a as int, b as int);
    if a >= b {
        return None;
    }
    let mut v: u64 = 0;
    let mut k: usize = a;
    while k < b
        invariant
            a <= k <= b <= line@.len(),
            a as int == skip_ws(line@, skip_word(line@, skip_ws(line@, 0))),
            b as int == skip_word(line@, a as int),
            w == line@.subrange(a as int, b as int),
            forall|m: int| 0 <= m < k - a ==> is_digit(#[trigger] w[m]),
            v == decimal(w.subrange(0, k - a)),
        decreases b - k,
    {
        let c = line[k];
        if c < 48u8 || c > 57u8 {
            assert(!is_digit(w[k - a]));
            return None;
        }
        assert(w.subrange(0, k - a + 1).drop_last() == w.subrange(0, k - a));
        let d = (c - 48u8) as u64;
        if v > (u64::MAX - d) / 10 {
            proof {
                assert(w[k - a] == c);
                assert(decimal(w.subrange(0, k - a + 1)) == v * 10 + d);
                assert(v * 10 + d > u64::MAX) by (nonlinear_arith)
                    requires
                        v > (u64::MAX - d) / 10,
                        d <= 9,
                ;
                if forall|m: int| 0 <= m < w.len() ==> is_digit(#[trigger] w[m]) {
                    lemma_decimal_grows(w, (k - a + 1) as int);
                }
            }
            return None;
        }
        v = v * 10 + d;
        k = k + 1;
    }
    assert(w.subrange(0, w.len() as int) == w);
    Some(v)
}

/// A longer prefix of all-digit words spells a number at least as large.
proof fn lemma_decimal_grows(w: Seq<u8>, j: int)
    requires
        0 <= j <= w.len(),
        forall|m: int| 0 <= m < w.len() ==> is_digit(#[trigger] w[m]),
    ensures
        decimal(w.subrange(0, j)) <= decimal(w),
    decreases w.len() - j,
{
    if j < w.len() {
        lemma_decimal_grows(w, j + 1);
        assert(w.subrange(0, j + 1).drop_last() == w.subrange(0, j));
    } else {
        assert(w.subrange(0, j) == w);
    }
}

/// The value of the first line of `contents` that starts with `key`.
pub fn parse_meminfo(contents: &[u8], key: &[u8]) -> (r: Option<u64>)
    ensures
        r matches Some(v) ==> field_from(contents@, key@, 0) == Some(v as nat),
        r is None ==> field_from(contents@, key@, 0) is None || field_from(contents@, key@, 0).unwrap() > u64::MAX,
{
    let mut i: usize = 0;
    while i < contents.len()
        invariant
            0 <= i <= contents@.len(),
            field_from(contents@, key@, i as int) == field_from(contents@, key@, 0),
        decreases contents@.len() - i,
    {
        let e = find_line_end(contents, i);
        let mut line: Vec<u8> = Vec::new();
        let mut k: usize = i;
        while k < e
            invariant
                i <= k <= e <= contents@.len(),
                line@ == contents@.subrange(i as int, k as int),
            decreases e - k,
        {
            line.push(contents[k]);
            k = k + 1;
        }
        assert(line@ == contents@.subrange(i as int, e as int));
        let hit = starts_with(line.as_slice(), key);
        proof {
            if e - i >= key@.len() {
                assert(line@.subrange(0, key@.len() as int) == contents@.subrange(i as int, i + key@.len()));
            }
            assert(hit == (e - i >= key@.len() && contents@.subrange(i as int, i + key@.len()) == key@));
        }
        if hit {
            return parse_second_word(line.as_slice());
        }
        if e >= contents.len() {
            return None;
        }
        i = e + 1;
    }
    None
}

/// Whether `s` begins with `prefix`.
pub fn starts_with(s: &[u8], prefix: &[u8]) -> (r: bool)
    ensures
        r == (s@.len() >= prefix@.len() && s@.subrange(0, prefix@.len() as int) == prefix@),
{
    if s.len() < prefix.len() {
        return false;
    }
    let mut k: usize = 0;
    while k < prefix.len()
        invariant
            0 <= k <= prefix@.len() <= s@.len(),
            forall|m: int| 0 <= m < k ==> s@[m] == prefix@[m],
        decreases prefix@.len() - k,
    {
        if s[k] != prefix[k] {
            assert(s@.subrange(0, prefix@.len() as int)[k as int] != prefix@[k as int]);
            return false;
        }
        k = k + 1;
    }
    assert(s@.subrange(0, prefix@.len() as int) == prefix@);
    true
}

} // verus!
