//! Run-length compression of text.
//!
//! A run of `n > 1` equal characters is written as the numeral of `n` followed
//! by the character; a single character is written as itself. Digits are
//! therefore reserved: they cannot stand for themselves in compressed text.

use crate::text::{
    all_digits, decimal_digits, decimal_value, is_digit, lemma_decimal_digits, parse_magnitude,
    push_decimal,
};
use vstd::prelude::*;

verus! {

/// `n` copies of `c`.
pub open spec fn repeat(c: char, n: nat) -> Seq<char> {
    Seq::new(n, |i: int| c)
}

/// No character of `s` is a digit.
pub open spec fn digit_free(s: Seq<char>) -> bool {
    forall|i: int| 0 <= i < s.len() ==> !is_digit(#[trigger] s[i])
}

/// How often a character is written out when the digits `pending` stand before
/// it: once when there are none, or when the number they write does not fit a
/// `usize`; else that number, which may be zero.
pub open spec fn repeat_count(pending: Seq<char>) -> nat {
    if pending.len() > 0 && decimal_value(pending) <= usize::MAX {
        decimal_value(pending)
    } else {
        1
    }
}

/// The expansion of `s` when the digits `pending` have just been read.
/// Digits left over at the end of `s` expand to nothing.
pub open spec fn decompress_from(s: Seq<char>, pending: Seq<char>) -> Seq<char>
    decreases s.len(),
{
    if s.len() == 0 {
        Seq::empty()
    } else if is_digit(s[0]) {
        decompress_from(s.drop_first(), pending.push(s[0]))
    } else {
        repeat(s[0], repeat_count(pending)) + decompress_from(s.drop_first(), Seq::empty())
    }
}

/// The expansion of compressed text.
pub open spec fn decompressed(s: Seq<char>) -> Seq<char> {
    decompress_from(s, Seq::empty())
}

/// Length of the run of equal characters that `s` starts with; `0` for the
/// empty string.
pub open spec fn run_length(s: Seq<char>) -> nat
    decreases s.len(),
{
    if s.len() == 0 {
        0
    } else if s.len() >= 2 && s[1] == s[0] {
        1 + run_length(s.drop_first())
    } else {
        1
    }
}

/// A run of `n` characters `c` in compressed form.
pub open spec fn encode_run(c: char, n: nat) -> Seq<char> {
    if n > 1 {
        decimal_digits(n).push(c)
    } else {
        seq![c]
    }
}

/// The compressed form of `s`: its maximal runs, each encoded, in order.
pub open spec fn compressed(s: Seq<char>) -> Seq<char>
    decreases s.len(),
{
    if s.len() == 0 {
        Seq::empty()
    } else {
        proof {
            lemma_run_length(s);
        }
        encode_run(s[0], run_length(s)) + compressed(s.skip(run_length(s) as int))
    }
}

/// What is still to be written while the character at `i` is read and `count`
/// characters of its run have been seen, that one included.
pub open spec fn pending_output(s: Seq<char>, i: int, count: nat) -> Seq<char> {
    if 0 <= i < s.len() {
        let n = run_length(s.skip(i));
        encode_run(s[i], (n + count - 1) as nat) + compressed(s.skip(i + n))
    } else {
        Seq::empty()
    }
}

/// The leading run of a non-empty string is at least one character long, lies
/// within the string, consists of equal characters and cannot be extended.
pub proof fn lemma_run_length(s: Seq<char>)
    requires
        s.len() > 0,
    ensures
        1 <= run_length(s) <= s.len(),
        forall|j: int| 0 <= j < run_length(s) ==> #[trigger] s[j] == s[0],
        run_length(s) < s.len() ==> s[run_length(s) as int] != s[0],
    decreases s.len(),
{
    if s.len() >= 2 && s[1] == s[0] {
        let t = s.drop_first();
        lemma_run_length(t);
        assert forall|j: int| 0 <= j < run_length(s) implies #[trigger] s[j] == s[0] by {
            if j > 0 {
                assert(s[j] == t[j - 1]);
            }
        }
        if run_length(s) < s.len() {
            assert(s[run_length(s) as int] == t[run_length(t) as int]);
        }
    }
}

/// Reading on within a run: the next character is the same, so nothing is
/// written yet.
proof fn lemma_pending_same(s: Seq<char>, i: int, count: nat)
    requires
        0 <= i,
        i + 1 < s.len(),
        s[i] == s[i + 1],
    ensures
        pending_output(s, i, count) == pending_output(s, i + 1, count + 1),
{
    let t = s.skip(i);
    assert(t.drop_first() =~= s.skip(i + 1));
    assert(t[0] == s[i] && t[1] == s[i + 1]);
    assert(run_length(t) == 1 + run_length(s.skip(i + 1)));
}

/// Reading the last character of a run: the run is written.
proof fn lemma_pending_last(s: Seq<char>, i: int, count: nat)
    requires
        0 <= i < s.len(),
        count >= 1,
        i + 1 < s.len() ==> s[i] != s[i + 1],
    ensures
        pending_output(s, i, count) == encode_run(s[i], count) + pending_output(s, i + 1, 1),
{
    let t = s.skip(i);
    assert(t[0] == s[i]);
    if i + 1 < s.len() {
        assert(t[1] == s[i + 1]);
    }
    assert(run_length(t) == 1);
    let u = s.skip(i + 1);
    if i + 1 < s.len() {
        lemma_run_length(u);
        assert(u.skip(run_length(u) as int) =~= s.skip(i + 1 + run_length(u)));
        assert(u[0] == s[i + 1]);
    } else {
        assert(u.len() == 0);
    }
}

/// Digits read ahead of a character only add to the pending count.
proof fn lemma_decompress_digits(ds: Seq<char>, rest: Seq<char>, pending: Seq<char>)
    requires
        all_digits(ds),
    ensures
        decompress_from(ds + rest, pending) == decompress_from(rest, pending + ds),
    decreases ds.len(),
{
    if ds.len() == 0 {
        assert(ds + rest =~= rest);
        assert(pending + ds =~= pending);
    } else {
        let s = ds + rest;
        assert(s[0] == ds[0]);
        assert(s.drop_first() =~= ds.drop_first() + rest);
        lemma_decompress_digits(ds.drop_first(), rest, pending.push(ds[0]));
        assert(pending.push(ds[0]) + ds.drop_first() =~= pending + ds);
    }
}

/// An encoded run expands to the run, whatever follows it.
proof fn lemma_decompress_run(c: char, n: nat, rest: Seq<char>)
    requires
        !is_digit(c),
        1 <= n <= usize::MAX,
    ensures
        decompressed(encode_run(c, n) + rest) == repeat(c, n) + decompressed(rest),
{
    let tail = seq![c] + rest;
    assert(tail[0] == c);
    assert(tail.drop_first() =~= rest);
    if n > 1 {
        let ds = decimal_digits(n);
        lemma_decimal_digits(n);
        assert(encode_run(c, n) + rest =~= ds + tail);
        lemma_decompress_digits(ds, tail, Seq::empty());
        assert(Seq::<char>::empty() + ds =~= ds);
    } else {
        assert(encode_run(c, n) + rest =~= tail);
    }
}

/// Expanding the compressed form of a text gives the text back, provided the
/// text holds no digit.
pub proof fn lemma_decompress_compress(s: Seq<char>)
    requires
        digit_free(s),
        s.len() <= usize::MAX,
    ensures
        decompressed(compressed(s)) == s,
    decreases s.len(),
{
    if s.len() > 0 {
        lemma_run_length(s);
        let n = run_length(s);
        let rest = s.skip(n as int);
        lemma_decompress_compress(rest);
        lemma_decompress_run(s[0], n, compressed(rest));
        assert(repeat(s[0], n) + rest =~= s);
    } else {
        assert(compressed(s) =~= Seq::<char>::empty());
    }
}

/// The empty text compresses to the empty text, and a text without two equal
/// neighbours compresses to itself.
pub proof fn lemma_compress_without_runs(s: Seq<char>)
    requires
        forall|i: int| 0 <= i && i + 1 < s.len() ==> #[trigger] s[i] != s[i + 1],
    ensures
        compressed(s) == s,
    decreases s.len(),
{
    if s.len() > 0 {
        let rest = s.skip(1);
        assert forall|i: int| 0 <= i && i + 1 < rest.len() implies #[trigger] rest[i] != rest[i + 1] by {
            assert(rest[i] == s[i + 1] && rest[i + 1] == s[i + 2]);
        }
        lemma_compress_without_runs(rest);
        assert(seq![s[0]] + rest =~= s);
    }
}

/// Expands compressed text.
pub fn decompress_chars(input: &[char]) -> (out: Vec<char>)
    ensures
        out@ == decompressed(input@),
{
    let mut out: Vec<char> = Vec::new();
    let mut pending: Vec<char> = Vec::new();
    let mut i: usize = 0;
    assert(input@.skip(0) =~= input@);
    while i < input.len()
        invariant
            i <= input.len(),
            all_digits(pending@),
            decompressed(input@) == out@ + decompress_from(input@.skip(i as int), pending@),
        decreases input.len() - i,
    {
        let c = input[i];
        let ghost rest = input@.skip(i as int);
        assert(rest[0] == c);
        assert(rest.drop_first() =~= input@.skip(i + 1));
        if c >= '0' && c <= '9' {
            pending.push(c);
        } else {
            let ghost pend = pending@;
            let count: usize = match parse_magnitude(pending.as_slice(), usize::MAX as u64) {
                Some(n) => n as usize,
                None => 1,
            };
            assert(count == repeat_count(pend));
            let ghost before = out@;
            let mut k: usize = 0;
            assert(before + repeat(c, 0) =~= before);
            while k < count
                invariant
                    k <= count,
                    out@ == before + repeat(c, k as nat),
                decreases count - k,
            {
                out.push(c);
                k += 1;
                assert(out@ =~= before + repeat(c, k as nat));
            }
            pending = Vec::new();
            assert(before + decompress_from(rest, pend) =~= out@ + decompress_from(
                input@.skip(i + 1),
                Seq::empty(),
            ));
        }
        i += 1;
    }
    assert(out@ + Seq::<char>::empty() =~= out@);
    out
}

/// Compresses a text.
pub fn compress_chars(input: &[char]) -> (out: Vec<char>)
    ensures
        out@ == compressed(input@),
        digit_free(input@) ==> decompressed(out@) == input@,
{
    let len = input.len();
    proof {
        if digit_free(input@) {
            lemma_decompress_compress(input@);
        }
    }
    let mut out: Vec<char> = Vec::new();
    let mut count: usize = 1;
    let mut i: usize = 0;
    proof {
        assert(input@.skip(0) =~= input@);
        if input.len() > 0 {
            lemma_run_length(input@);
        }
        assert(Seq::<char>::empty() + pending_output(input@, 0, 1) =~= compressed(input@));
    }
    while i < len
        invariant
            len == input.len(),
            i <= len,
            1 <= count <= i + 1,
            compressed(input@) == out@ + pending_output(input@, i as int, count as nat),
        decreases len - i,
    {
        if i + 1 < len && input[i] == input[i + 1] {
            proof {
                lemma_pending_same(input@, i as int, count as nat);
            }
            count += 1;
        } else {
            proof {
                lemma_pending_last(input@, i as int, count as nat);
            }
            let ghost before = out@;
            if count > 1 {
                push_decimal(&mut out, count);
            }
            out.push(input[i]);
            assert(out@ =~= before + encode_run(input@[i as int], count as nat));
            assert(out@ + pending_output(input@, i + 1, 1) =~= before + (encode_run(
                input@[i as int],
                count as nat,
            ) + pending_output(input@, i + 1, 1)));
            count = 1;
        }
        i += 1;
    }
    assert(out@ + Seq::<char>::empty() =~= out@);
    out
}

} // verus!
