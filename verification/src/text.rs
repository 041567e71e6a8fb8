//! Characters, decimal numerals and the few string operations the formats need.
//!
//! Strings are handled as sequences of characters. The numeral rules are those
//! of the standard integer parsers: ASCII digits only, an optional sign for
//! signed targets, no surrounding blanks, and failure when the value does not
//! fit the target.

use vstd::prelude::*;
use vstd::slice::slice_subrange;

verus! {

/// `String::push` appends one character.
pub assume_specification[ String::push ](s: &mut String, c: char)
    ensures
        final(s)@ == old(s)@.push(c),
;

/// An ASCII decimal digit.
pub open spec fn is_digit(c: char) -> bool {
    '0' <= c <= '9'
}

/// The value of a decimal digit.
pub open spec fn digit_value(c: char) -> int {
    c as int - '0' as int
}

/// The digit character for a value in `0..=9`.
pub open spec fn digit_char(d: int) -> char {
    if d == 0 {
        '0'
    } else if d == 1 {
        '1'
    } else if d == 2 {
        '2'
    } else if d == 3 {
        '3'
    } else if d == 4 {
        '4'
    } else if d == 5 {
        '5'
    } else if d == 6 {
        '6'
    } else if d == 7 {
        '7'
    } else if d == 8 {
        '8'
    } else {
        '9'
    }
}

pub open spec fn all_digits(s: Seq<char>) -> bool {
    forall|i: int| 0 <= i < s.len() ==> is_digit(#[trigger] s[i])
}

/// The number that a string of digits writes in base ten; `0` for the empty
/// string. Leading zeros do not count.
pub open spec fn decimal_value(s: Seq<char>) -> nat
    decreases s.len(),
{
    if s.len() == 0 {
        0
    } else {
        (decimal_value(s.drop_last()) * 10 + digit_value(s.last())) as nat
    }
}

/// The shortest base-ten numeral of `n`.
pub open spec fn decimal_digits(n: nat) -> Seq<char>
    decreases n,
{
    if n < 10 {
        seq![digit_char(n as int)]
    } else {
        decimal_digits(n / 10).push(digit_char((n % 10) as int))
    }
}

/// The value of a non-empty string of digits, where it does not exceed `limit`.
pub open spec fn numeral_value(s: Seq<char>, limit: int) -> Option<int> {
    if s.len() > 0 && all_digits(s) && decimal_value(s) <= limit {
        Some(decimal_value(s) as int)
    } else {
        None
    }
}

/// The integer that a string writes: an optional `+` or `-`, then one or more
/// digits. `None` for anything else.
pub open spec fn signed_value(s: Seq<char>) -> Option<int> {
    if s.len() > 0 && (s[0] == '+' || s[0] == '-') {
        let digits = s.drop_first();
        if digits.len() > 0 && all_digits(digits) {
            if s[0] == '-' {
                Some(-(decimal_value(digits) as int))
            } else {
                Some(decimal_value(digits) as int)
            }
        } else {
            None
        }
    } else if s.len() > 0 && all_digits(s) {
        Some(decimal_value(s) as int)
    } else {
        None
    }
}

/// What parsing `s` as a signed integer with range `min..=max` gives.
pub open spec fn parsed_int(s: Seq<char>, min: int, max: int) -> Option<int> {
    match signed_value(s) {
        Some(v) => if min <= v <= max {
            Some(v)
        } else {
            None
        },
        None => None,
    }
}

/// Index of the first `c` in `s` at or after `from`; `s.len()` when there is none.
pub open spec fn find_char(s: Seq<char>, c: char, from: int) -> int
    decreases s.len() - from,
{
    if from >= s.len() {
        s.len() as int
    } else if s[from] == c {
        from
    } else {
        find_char(s, c, from + 1)
    }
}

/// `pattern` stands in `s` at index `i`.
pub open spec fn occurs_at(s: Seq<char>, pattern: Seq<char>, i: int) -> bool {
    0 <= i && i + pattern.len() <= s.len() && s.subrange(i, i + pattern.len()) == pattern
}

/// Index of the first occurrence of `pattern` in `s` at or after `from`;
/// `s.len()` when there is none.
pub open spec fn find_pattern(s: Seq<char>, pattern: Seq<char>, from: int) -> int
    decreases s.len() - from,
{
    if from >= s.len() {
        s.len() as int
    } else if occurs_at(s, pattern, from) {
        from
    } else {
        find_pattern(s, pattern, from + 1)
    }
}

/// The pieces of `s` from index `from` on, cut at each `sep`.
pub open spec fn split_from(s: Seq<char>, sep: char, from: int) -> Seq<Seq<char>>
    decreases s.len() - from,
{
    let i = find_char(s, sep, from);
    if from <= i < s.len() {
        seq![s.subrange(from, i)] + split_from(s, sep, i + 1)
    } else {
        seq![s.subrange(from, s.len() as int)]
    }
}

/// The pieces of `s` between the occurrences of `sep`: one more piece than
/// there are separators, so the empty string has one empty piece.
pub open spec fn split_fields(s: Seq<char>, sep: char) -> Seq<Seq<char>> {
    split_from(s, sep, 0)
}

/// `s` cut at its first `sep`: what stands before it and what stands after.
/// `None` when `s` holds no `sep`.
pub open spec fn split_pair(s: Seq<char>, sep: char) -> Option<(Seq<char>, Seq<char>)> {
    let i = find_char(s, sep, 0);
    if i >= s.len() {
        None
    } else {
        Some((s.take(i), s.skip(i + 1)))
    }
}

/// What `find_char` finds is the first `c` at or after `from`: it lies within
/// the string, holds `c`, and no `c` stands between `from` and it.
pub proof fn lemma_find_char(s: Seq<char>, c: char, from: int)
    requires
        0 <= from <= s.len(),
    ensures
        from <= find_char(s, c, from) <= s.len(),
        find_char(s, c, from) < s.len() ==> s[find_char(s, c, from)] == c,
        forall|j: int| from <= j < find_char(s, c, from) ==> s[j] != c,
    decreases s.len() - from,
{
    if from < s.len() && s[from] != c {
        lemma_find_char(s, c, from + 1);
    }
}

/// What `find_pattern` finds is the first occurrence at or after `from`: the
/// pattern stands there, whole, and nowhere between `from` and it.
pub proof fn lemma_find_pattern(s: Seq<char>, pattern: Seq<char>, from: int)
    requires
        0 <= from <= s.len(),
    ensures
        from <= find_pattern(s, pattern, from) <= s.len(),
        find_pattern(s, pattern, from) < s.len() ==> occurs_at(
            s,
            pattern,
            find_pattern(s, pattern, from),
        ),
        forall|j: int| from <= j < find_pattern(s, pattern, from) ==> !occurs_at(s, pattern, j),
    decreases s.len() - from,
{
    if from < s.len() && !occurs_at(s, pattern, from) {
        lemma_find_pattern(s, pattern, from + 1);
    }
}

/// Appending a digit multiplies the value by ten and adds the digit.
pub proof fn lemma_decimal_value_push(s: Seq<char>, c: char)
    requires
        is_digit(c),
    ensures
        decimal_value(s.push(c)) == decimal_value(s) * 10 + digit_value(c),
{
    assert(s.push(c).drop_last() =~= s);
}

/// A prefix of a string of digits writes no larger a number than the whole.
pub proof fn lemma_decimal_value_prefix(s: Seq<char>, k: int)
    requires
        all_digits(s),
        0 <= k <= s.len(),
    ensures
        decimal_value(s.take(k)) <= decimal_value(s),
    decreases s.len(),
{
    if k == s.len() {
        assert(s.take(k) =~= s);
    } else {
        assert(s.drop_last().take(k) =~= s.take(k));
        lemma_decimal_value_prefix(s.drop_last(), k);
    }
}

/// The numeral of `n` is made of digits, has no leading zero unless it is "0",
/// and writes `n`.
pub proof fn lemma_decimal_digits(n: nat)
    ensures
        decimal_digits(n).len() >= 1,
        all_digits(decimal_digits(n)),
        decimal_value(decimal_digits(n)) == n,
        n > 0 ==> decimal_digits(n)[0] != '0',
    decreases n,
{
    if n < 10 {
        let s = seq![digit_char(n as int)];
        assert(s.drop_last() =~= Seq::<char>::empty());
        assert(decimal_value(s.drop_last()) == 0);
    } else {
        lemma_decimal_digits(n / 10);
        lemma_decimal_value_push(decimal_digits(n / 10), digit_char((n % 10) as int));
    }
}

/// The characters of a string, in order.
pub fn str_chars(s: &str) -> (v: Vec<char>)
    ensures
        v@ == s@,
{
    let mut v: Vec<char> = Vec::new();
    for c in it: s.chars()
        invariant
            it.seq() == s@,
            v@ == s@.take(it.index() as int),
    {
        v.push(c);
    }
    v
}

/// The string made of the given characters.
pub fn chars_string(chars: &[char]) -> (s: String)
    ensures
        s@ == chars@,
{
    let mut s = String::new();
    let mut i: usize = 0;
    while i < chars.len()
        invariant
            i <= chars.len(),
            s@ == chars@.take(i as int),
        decreases chars.len() - i,
    {
        s.push(chars[i]);
        i += 1;
    }
    assert(chars@.take(i as int) =~= chars@);
    s
}

/// The value of `c` as a decimal digit, if it is one.
pub fn digit_of(c: char) -> (r: Option<u8>)
    ensures
        r is Some <==> is_digit(c),
        r matches Some(d) ==> d == digit_value(c),
{
    if c >= '0' && c <= '9' {
        Some((c as u32 - '0' as u32) as u8)
    } else {
        None
    }
}

/// The digit that writes `d`.
pub fn char_of_digit(d: u8) -> (c: char)
    requires
        d <= 9,
    ensures
        c == digit_char(d as int),
        is_digit(c),
        digit_value(c) == d,
{
    match d {
        0 => '0',
        1 => '1',
        2 => '2',
        3 => '3',
        4 => '4',
        5 => '5',
        6 => '6',
        7 => '7',
        8 => '8',
        _ => '9',
    }
}

/// Appends the base-ten numeral of `n` to `out`.
pub fn push_decimal(out: &mut Vec<char>, n: usize)
    ensures
        final(out)@ == old(out)@ + decimal_digits(n as nat),
    decreases n,
{
    if n >= 10 {
        push_decimal(out, n / 10);
    }
    out.push(char_of_digit((n % 10) as u8));
    assert(out@ =~= old(out)@ + decimal_digits(n as nat));
}

/// Reads a non-empty string of digits as a number no larger than `limit`.
pub fn parse_magnitude(digits: &[char], limit: u64) -> (r: Option<u64>)
    ensures
        match r {
            Some(v) => numeral_value(digits@, limit as int) == Some(v as int),
            None => numeral_value(digits@, limit as int) is None,
        },
{
    let n = digits.len();
    if n == 0 {
        return None;
    }
    let mut acc: u64 = 0;
    let mut i: usize = 0;
    assert(digits@.take(0) =~= Seq::<char>::empty());
    while i < n
        invariant
            n == digits.len(),
            i <= n,
            all_digits(digits@.take(i as int)),
            acc == decimal_value(digits@.take(i as int)),
            acc <= limit,
        decreases n - i,
    {
        let c = digits[i];
        let ghost next = digits@.take(i as int + 1);
        assert(next =~= digits@.take(i as int).push(c));
        let d: u64 = match digit_of(c) {
            Some(d) => d as u64,
            None => {
                assert(!is_digit(digits@[i as int]));
                return None;
            },
        };
        proof {
            lemma_decimal_value_push(digits@.take(i as int), c);
            if all_digits(digits@) {
                lemma_decimal_value_prefix(digits@, i as int + 1);
            }
        }
        if acc > limit / 10 {
            return None;
        }
        if d > limit - acc * 10 {
            return None;
        }
        acc = acc * 10 + d;
        i += 1;
    }
    assert(digits@.take(i as int) =~= digits@);
    Some(acc)
}

/// Parses a signed 64-bit integer.
pub fn parse_i64(s: &[char]) -> (r: Option<i64>)
    ensures
        match r {
            Some(v) => parsed_int(s@, i64::MIN as int, i64::MAX as int) == Some(v as int),
            None => parsed_int(s@, i64::MIN as int, i64::MAX as int) is None,
        },
{
    let n = s.len();
    if n == 0 {
        return None;
    }
    let first = s[0];
    if first == '+' || first == '-' {
        let digits = slice_subrange(s, 1, n);
        assert(digits@ =~= s@.drop_first());
        if first == '-' {
            match parse_magnitude(digits, 0x8000_0000_0000_0000) {
                Some(m) => if m == 0x8000_0000_0000_0000 {
                    Some(i64::MIN)
                } else {
                    Some(-(m as i64))
                },
                None => None,
            }
        } else {
            match parse_magnitude(digits, 0x7fff_ffff_ffff_ffff) {
                Some(m) => Some(m as i64),
                None => None,
            }
        }
    } else {
        match parse_magnitude(s, 0x7fff_ffff_ffff_ffff) {
            Some(m) => Some(m as i64),
            None => None,
        }
    }
}

/// Parses a signed 32-bit integer.
pub fn parse_i32(s: &[char]) -> (r: Option<i32>)
    ensures
        match r {
            Some(v) => parsed_int(s@, i32::MIN as int, i32::MAX as int) == Some(v as int),
            None => parsed_int(s@, i32::MIN as int, i32::MAX as int) is None,
        },
{
    match parse_i64(s) {
        Some(v) => if -0x8000_0000 <= v && v <= 0x7fff_ffff {
            Some(v as i32)
        } else {
            None
        },
        None => None,
    }
}

/// Finds the first `c` at or after `from`.
pub fn index_of_char(s: &[char], c: char, from: usize) -> (i: usize)
    requires
        from <= s.len(),
    ensures
        i == find_char(s@, c, from as int),
        from <= i <= s.len(),
{
    let mut i = from;
    while i < s.len() && s[i] != c
        invariant
            from <= i <= s.len(),
            find_char(s@, c, from as int) == find_char(s@, c, i as int),
        decreases s.len() - i,
    {
        i += 1;
    }
    i
}

/// Tells whether `pattern` stands in `s` at index `i`.
pub fn matches_at(s: &[char], pattern: &[char], i: usize) -> (b: bool)
    requires
        i <= s.len(),
    ensures
        b == occurs_at(s@, pattern@, i as int),
{
    let m = pattern.len();
    if m > s.len() - i {
        return false;
    }
    let mut k: usize = 0;
    while k < m
        invariant
            k <= m,
            m == pattern.len(),
            i + m <= s.len(),
            forall|j: int| 0 <= j < k ==> s@[i + j] == pattern@[j],
        decreases m - k,
    {
        if s[i + k] != pattern[k] {
            assert(s@.subrange(i as int, i + m)[k as int] != pattern@[k as int]);
            return false;
        }
        k += 1;
    }
    assert(s@.subrange(i as int, i + m) =~= pattern@);
    true
}

/// Finds the first occurrence of `pattern` at or after `from`.
pub fn index_of_pattern(s: &[char], pattern: &[char], from: usize) -> (i: usize)
    requires
        from <= s.len(),
    ensures
        i == find_pattern(s@, pattern@, from as int),
        from <= i <= s.len(),
{
    let mut i = from;
    while i < s.len()
        invariant
            from <= i <= s.len(),
            find_pattern(s@, pattern@, from as int) == find_pattern(s@, pattern@, i as int),
        decreases s.len() - i,
    {
        if matches_at(s, pattern, i) {
            return i;
        }
        i += 1;
    }
    i
}

} // verus!
