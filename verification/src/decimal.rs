//! Canonical decimal numerals over character sequences.
//!
//! The session-record codec stores numbers (the user id and the field
//! lengths) as decimal digit strings without leading zeros. This module
//! defines the numeral format, renders and parses it in executable code,
//! and proves that rendering and parsing invert each other.

use vstd::prelude::*;

verus! {

/// Is `c` one of the ten decimal digit characters?
pub open spec fn is_digit(c: char) -> bool {
    48 <= c as int && c as int <= 57
}

/// The numeric value of a digit character.
pub open spec fn digit_val(c: char) -> int {
    c as int - 48
}

/// The digit character for a value below ten.
pub open spec fn char_of_digit(d: int) -> char {
    if d == 0 {
        '0'
    } else if d == 1 {
        '1'
    } else if d == 2 {
        '2'
    } else if d == 3 {
        '3'
    } else if d == 4 {
        '4'
    } else if d == 5 {
        '5'
    } else if d == 6 {
        '6'
    } else if d == 7 {
        '7'
    } else if d == 8 {
        '8'
    } else {
        '9'
    }
}

/// Every character of `s` is a decimal digit.
pub open spec fn all_digits(s: Seq<char>) -> bool {
    forall|i: int| 0 <= i < s.len() ==> is_digit(#[trigger] s[i])
}

/// `s` is the canonical numeral of some natural number: non-empty, all
/// digits, and without a leading zero (except for the numeral `0` itself).
pub open spec fn canonical_digits(s: Seq<char>) -> bool {
    &&& s.len() > 0
    &&& all_digits(s)
    &&& s.len() > 1 ==> s[0] != '0'
}

/// The canonical decimal numeral of `n`, most significant digit first.
pub open spec fn dec_digits(n: nat) -> Seq<char>
    decreases n,
{
    if n < 10 {
        seq![char_of_digit(n as int)]
    } else {
        dec_digits(n / 10) + seq![char_of_digit((n % 10) as int)]
    }
}

/// The number denoted by a digit string (most significant digit first).
pub open spec fn digits_val(s: Seq<char>) -> int
    decreases s.len(),
{
    if s.len() == 0 {
        0
    } else {
        digits_val(s.drop_last()) * 10 + digit_val(s.last())
    }
}

proof fn lemma_digit_char_val(d: int)
    requires
        0 <= d < 10,
    ensures
        is_digit(char_of_digit(d)),
        digit_val(char_of_digit(d)) == d,
        char_of_digit(d) != '|',
{
}

proof fn lemma_val_digit_char(c: char)
    requires
        is_digit(c),
    ensures
        char_of_digit(digit_val(c)) == c,
        0 <= digit_val(c) < 10,
{
    assert(char_of_digit(digit_val(c)) == c) by {
        if c as int == 48 {
            assert(c == '0');
        } else if c as int == 49 {
            assert(c == '1');
        } else if c as int == 50 {
            assert(c == '2');
        } else if c as int == 51 {
            assert(c == '3');
        } else if c as int == 52 {
            assert(c == '4');
        } else if c as int == 53 {
            assert(c == '5');
        } else if c as int == 54 {
            assert(c == '6');
        } else if c as int == 55 {
            assert(c == '7');
        } else if c as int == 56 {
            assert(c == '8');
        } else {
            assert(c == '9');
        }
    }
}

/// All-digit strings denote non-negative numbers.
pub proof fn lemma_digits_val_nonneg(s: Seq<char>)
    requires
        all_digits(s),
    ensures
        digits_val(s) >= 0,
    decreases s.len(),
{
    if s.len() > 0 {
        assert(all_digits(s.drop_last()));
        lemma_digits_val_nonneg(s.drop_last());
        assert(is_digit(s.last()));
    }
}

/// A digit string whose leading digit is not zero denotes at least one.
proof fn lemma_digits_val_pos(s: Seq<char>)
    requires
        all_digits(s),
        s.len() > 0,
        s[0] != '0',
    ensures
        digits_val(s) >= 1,
    decreases s.len(),
{
    if s.len() == 1 {
        assert(s.drop_last().len() == 0);
        assert(digits_val(s.drop_last()) == 0);
        assert(s.last() == s[0]);
        assert(is_digit(s[0]));
        assert(digit_val(s[0]) >= 1);
        assert(digits_val(s) == digit_val(s[0]));
    } else {
        let p = s.drop_last();
        assert(all_digits(p));
        assert(p[0] == s[0]);
        lemma_digits_val_pos(p);
        assert(is_digit(s.last()));
        assert(digit_val(s.last()) >= 0);
        assert(digits_val(s) == digits_val(p) * 10 + digit_val(s.last()));
    }
}

/// The canonical numeral of `n` is canonical and denotes `n`.
pub proof fn lemma_dec_digits_wf(n: nat)
    ensures
        canonical_digits(dec_digits(n)),
        digits_val(dec_digits(n)) == n,
        forall|i: int|
            0 <= i < dec_digits(n).len() ==> #[trigger] dec_digits(n)[i] != '|',
    decreases n,
{
    if n < 10 {
        lemma_digit_char_val(n as int);
        let s = dec_digits(n);
        assert(s =~= seq![char_of_digit(n as int)]);
        assert(s.last() == char_of_digit(n as int));
        assert(s.drop_last().len() == 0);
        assert(digits_val(s.drop_last()) == 0);
        assert(digits_val(s) == digit_val(s.last()));
    } else {
        lemma_dec_digits_wf(n / 10);
        lemma_digit_char_val((n % 10) as int);
        let p = dec_digits(n / 10);
        let s = dec_digits(n);
        assert(s == p + seq![char_of_digit((n % 10) as int)]);
        assert(s.drop_last() =~= p);
        assert(s.last() == char_of_digit((n % 10) as int));
        assert(digits_val(s) == digits_val(p) * 10 + (n % 10));
        assert(n / 10 >= 1);
        assert(p[0] != '0') by {
            if p.len() == 1 {
                assert(p.drop_last().len() == 0);
                assert(digits_val(p.drop_last()) == 0);
                assert(p.last() == p[0]);
                assert(digits_val(p) == digit_val(p[0]));
            }
        }
        assert(forall|i: int| 0 <= i < s.len() ==> is_digit(#[trigger] s[i])) by {
            assert(forall|i: int| 0 <= i < p.len() ==> #[trigger] s[i] == p[i]);
        }
        assert(s[0] == p[0]);
    }
}

/// A canonical numeral is recovered from the number it denotes: rendering
/// is the inverse of evaluation, so distinct canonical numerals denote
/// distinct numbers.
pub proof fn lemma_canonical_digits_unique(s: Seq<char>)
    requires
        canonical_digits(s),
    ensures
        digits_val(s) >= 0,
        dec_digits(digits_val(s) as nat) == s,
    decreases s.len(),
{
    lemma_digits_val_nonneg(s);
    let v = digits_val(s) as nat;
    if s.len() == 1 {
        assert(s.drop_last().len() == 0);
        assert(digits_val(s.drop_last()) == 0);
        assert(digits_val(s) == digit_val(s.last()));
        lemma_val_digit_char(s.last());
        assert(v < 10);
        assert(dec_digits(v) =~= seq![char_of_digit(digit_val(s.last()))]);
        assert(dec_digits(v) =~= s);
    } else {
        let p = s.drop_last();
        assert(all_digits(p));
        assert(p[0] == s[0]);
        assert(canonical_digits(p));
        lemma_canonical_digits_unique(p);
        lemma_digits_val_pos(p);
        lemma_val_digit_char(s.last());
        let pv = digits_val(p) as nat;
        assert(v == pv * 10 + digit_val(s.last()));
        assert(v >= 10);
        assert(v / 10 == pv && v % 10 == digit_val(s.last())) by {
            assert(0 <= digit_val(s.last()) < 10);
            assert((pv * 10 + digit_val(s.last())) / 10 == pv) by (nonlinear_arith)
                requires
                    0 <= digit_val(s.last()) < 10,
                    pv >= 0,
            ;
            assert((pv * 10 + digit_val(s.last())) % 10 == digit_val(s.last()))
                by (nonlinear_arith)
                requires
                    0 <= digit_val(s.last()) < 10,
                    pv >= 0,
            ;
        }
        assert(dec_digits(v) == dec_digits(pv) + seq![char_of_digit((v % 10) as int)]);
        assert(dec_digits(v) =~= s) by {
            assert(dec_digits(pv) == p);
            assert(char_of_digit((v % 10) as int) == s.last());
            assert(s =~= p + seq![s.last()]);
        }
    }
}

/// Appending digits never decreases the denoted value.
proof fn lemma_digits_val_prefix_le(s: Seq<char>, k: int)
    requires
        all_digits(s),
        0 <= k <= s.len(),
    ensures
        digits_val(s.subrange(0, k)) <= digits_val(s),
    decreases s.len() - k,
{
    if k == s.len() {
        assert(s.subrange(0, k) =~= s);
    } else {
        let t = s.subrange(0, k + 1);
        assert(all_digits(t));
        assert(t.drop_last() =~= s.subrange(0, k));
        lemma_digits_val_nonneg(s.subrange(0, k));
        assert(is_digit(t.last()));
        assert(digits_val(t) == digits_val(s.subrange(0, k)) * 10 + digit_val(t.last()));
        assert(digits_val(s.subrange(0, k)) * 10 >= digits_val(s.subrange(0, k))) by (nonlinear_arith)
            requires
                digits_val(s.subrange(0, k)) >= 0,
        ;
        lemma_digits_val_prefix_le(s, k + 1);
    }
}

/// The digit character for a value below ten, as executable code.
fn digit_to_char(d: u64) -> (c: char)
    requires
        d < 10,
    ensures
        c == char_of_digit(d as int),
{
    if d == 0 {
        '0'
    } else if d == 1 {
        '1'
    } else if d == 2 {
        '2'
    } else if d == 3 {
        '3'
    } else if d == 4 {
        '4'
    } else if d == 5 {
        '5'
    } else if d == 6 {
        '6'
    } else if d == 7 {
        '7'
    } else if d == 8 {
        '8'
    } else {
        '9'
    }
}

/// The value of a digit character, as executable code; `None` on any
/// other character.
fn char_to_digit(c: char) -> (r: Option<u64>)
    ensures
        match r {
            Some(d) => is_digit(c) && d == digit_val(c) && d < 10,
            None => !is_digit(c),
        },
{
    if c == '0' {
        Some(0)
    } else if c == '1' {
        Some(1)
    } else if c == '2' {
        Some(2)
    } else if c == '3' {
        Some(3)
    } else if c == '4' {
        Some(4)
    } else if c == '5' {
        Some(5)
    } else if c == '6' {
        Some(6)
    } else if c == '7' {
        Some(7)
    } else if c == '8' {
        Some(8)
    } else if c == '9' {
        Some(9)
    } else {
        assert(!is_digit(c)) by {
            if is_digit(c) {
                lemma_val_digit_char(c);
            }
        }
        None
    }
}

/// Relies on String::push from std: appends one character at the end.
#[verifier::external_body]
pub(crate) fn push_char(s: &mut String, c: char)
    ensures
        final(s)@ == old(s)@.push(c),
{
    s.push(c);
}

/// Renders `n` as its canonical decimal numeral.
pub fn u64_to_dec(n: u64) -> (s: String)
    ensures
        s@ == dec_digits(n as nat),
    decreases n,
{
    if n < 10 {
        let mut s = String::new();
        push_char(&mut s, digit_to_char(n));
        proof {
            assert(s@ =~= dec_digits(n as nat));
        }
        s
    } else {
        let mut s = u64_to_dec(n / 10);
        push_char(&mut s, digit_to_char(n % 10));
        proof {
            assert(s@ =~= dec_digits((n / 10) as nat) + seq![char_of_digit((n % 10) as int)]);
            assert((n / 10) as nat == (n as nat) / 10);
            assert((n % 10) as nat == (n as nat) % 10);
        }
        s
    }
}

/// Parses the character range `[from, to)` of `s` as a canonical decimal
/// numeral that fits in a `u64`. Rejects the empty range, non-digits,
/// leading zeros and values above `u64::MAX`.
pub fn parse_dec(s: &str, from: usize, to: usize) -> (r: Option<u64>)
    requires
        from <= to <= s@.len(),
    ensures
        match r {
            Some(v) => canonical_digits(s@.subrange(from as int, to as int)) && digits_val(
                s@.subrange(from as int, to as int),
            ) == v,
            None => !canonical_digits(s@.subrange(from as int, to as int)) || digits_val(
                s@.subrange(from as int, to as int),
            ) > u64::MAX,
        },
{
    let ghost seg = s@.subrange(from as int, to as int);
    if from == to {
        assert(seg.len() == 0);
        return None;
    }
    if to - from > 1 && s.get_char(from) == '0' {
        assert(seg[0] == '0');
        return None;
    }
    let mut acc: u64 = 0;
    let mut i = from;
    while i < to
        invariant
            from <= i <= to <= s@.len(),
            to > from,
            seg == s@.subrange(from as int, to as int),
            all_digits(seg.subrange(0, i - from)),
            acc == digits_val(seg.subrange(0, i - from)),
            seg.len() > 1 ==> seg[0] != '0',
        decreases to - i,
    {
        let c = s.get_char(i);
        assert(c == seg[i - from]);
        let ghost pre = seg.subrange(0, i - from);
        let ghost cur = seg.subrange(0, i + 1 - from);
        assert(cur.drop_last() =~= pre);
        assert(cur.last() == c);
        match char_to_digit(c) {
            None => {
                assert(!all_digits(seg)) by {
                    assert(!is_digit(seg[i - from]));
                }
                return None;
            },
            Some(d) => {
                if acc > (u64::MAX - d) / 10 {
                    assert(digits_val(cur) > u64::MAX) by {
                        let q = (u64::MAX - d) / 10;
                        assert(acc >= q + 1);
                        assert(digits_val(cur) == acc * 10 + d);
                        assert(acc * 10 >= (q + 1) * 10) by (nonlinear_arith)
                            requires
                                acc >= q + 1,
                        ;
                        assert((u64::MAX - d) as int == q * 10 + ((u64::MAX - d) as int % 10)) by {
                            assert(q == (u64::MAX - d) as int / 10);
                        }
                    }
                    assert(!canonical_digits(seg) || digits_val(seg) > u64::MAX) by {
                        if canonical_digits(seg) {
                            lemma_digits_val_prefix_le(seg, i + 1 - from);
                            assert(seg.subrange(0, i + 1 - from) == cur);
                        }
                    }
                    return None;
                }
                assert(acc * 10 + d <= u64::MAX) by {
                    let q = (u64::MAX - d) / 10;
                    assert(acc <= q);
                    assert(acc * 10 <= q * 10) by (nonlinear_arith)
                        requires
                            acc <= q,
                            acc >= 0,
                    ;
                    assert(q * 10 <= (u64::MAX - d) as int);
                }
                acc = acc * 10 + d;
                assert(digits_val(cur) == digits_val(pre) * 10 + digit_val(c));
                assert(all_digits(cur)) by {
                    assert(forall|j: int| 0 <= j < pre.len() ==> #[trigger] cur[j] == pre[j]);
                }
            },
        }
        i = i + 1;
    }
    assert(seg.subrange(0, to - from) =~= seg);
    Some(acc)
}

} // verus!
