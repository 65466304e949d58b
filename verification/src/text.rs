use vstd::prelude::*;
use vstd::string::StrSliceExecFns;
use vstd::arithmetic::power::pow;

verus! {

/// Why text is not a valid index, in the terms of the standard library's
/// unsigned integer parsing.
#[derive(Clone, Copy, Debug, PartialEq, Eq, Structural)]
pub enum IndexError {
    /// The text is empty.
    Empty,
    /// The text holds something other than decimal digits (after one
    /// optional leading `+`).
    InvalidDigit,
    /// The number does not fit in a `usize`.
    PosOverflow,
}

pub open spec fn is_digit(c: char) -> bool {
    '0' <= c <= '9'
}

pub open spec fn all_digits(s: Seq<char>) -> bool {
    forall|i: int| 0 <= i < s.len() ==> #[trigger] is_digit(s[i])
}

/// The number that the decimal digits `s` spell, most significant first.
pub open spec fn decimal_value(s: Seq<char>) -> nat
    decreases s.len(),
{
    if s.len() == 0 {
        0
    } else {
        decimal_value(s.drop_last()) * 10 + (s.last() as nat - '0' as nat) as nat
    }
}

/// The character of the decimal digit `d`, below ten.
pub open spec fn digit_char(d: nat) -> char {
    ('0' as nat + d) as char
}

/// The decimal digits of `k`, most significant first, without leading zeros
/// (`0` is the single digit `0`): what `k.to_string()` gives.
pub open spec fn decimal_digits(k: nat) -> Seq<char>
    decreases k,
{
    if k < 10 {
        seq![digit_char(k)]
    } else {
        decimal_digits(k / 10).push(digit_char(k % 10))
    }
}

/// The digits of `t`: everything after one leading `+`, if there is one.
pub open spec fn unsigned_digits(t: Seq<char>) -> Seq<char> {
    if t.len() > 0 && t[0] == '+' {
        t.drop_first()
    } else {
        t
    }
}

/// What parsing `t` as a `usize` gives. The digits are read from the left,
/// so a number that grows too large before the first non-digit is reported
/// as an overflow, and a non-digit that comes first as an invalid digit.
pub open spec fn spec_parse_index(t: Seq<char>) -> Result<usize, IndexError> {
    let d = unsigned_digits(t);
    if t.len() == 0 {
        Err(IndexError::Empty)
    } else if exists|k: int|
        0 < k <= d.len() && all_digits(d.take(k)) && #[trigger] decimal_value(d.take(k))
            > usize::MAX {
        Err(IndexError::PosOverflow)
    } else if d.len() > 0 && all_digits(d) {
        Ok(decimal_value(d) as usize)
    } else {
        Err(IndexError::InvalidDigit)
    }
}

/// Parses `s` as a decimal `usize`, as `str::parse::<usize>` does; in
/// particular the decimal digits of any `k` that fits parse to `k`.
pub fn parse_index(s: &str) -> (r: Result<usize, IndexError>)
    ensures
        r == spec_parse_index(s@),
        forall|k: nat|
            k <= usize::MAX && s@ == #[trigger] decimal_digits(k) ==> r == Ok::<usize, IndexError>(
                k as usize,
            ),
{
    let r = scan_index(s);
    proof {
        assert forall|k: nat| k <= usize::MAX && s@ == #[trigger] decimal_digits(k) implies r
            == Ok::<usize, IndexError>(k as usize) by {
            lemma_parse_decimal_digits(k);
        }
    }
    r
}

/// Reads the digits of `s` from the left, stopping at the first non-digit or
/// at the first overflow.
fn scan_index(s: &str) -> (r: Result<usize, IndexError>)
    ensures
        r == spec_parse_index(s@),
{
    let n = s.unicode_len();
    if n == 0 {
        return Err(IndexError::Empty);
    }
    let start: usize = if s.get_char(0) == '+' { 1 } else { 0 };
    let ghost d = unsigned_digits(s@);
    assert(d =~= s@.skip(start as int));
    if start == n {
        assert(d.len() == 0);
        return Err(IndexError::InvalidDigit);
    }
    let mut acc: usize = 0;
    let mut i: usize = start;
    assert(d.take(0) =~= Seq::<char>::empty());
    while i < n
        invariant
            start <= i <= n,
            n == s@.len(),
            d =~= s@.skip(start as int),
            d == unsigned_digits(s@),
            d.len() > 0,
            all_digits(d.take(i - start)),
            acc == decimal_value(d.take(i - start)),
            forall|k: int|
                0 < k <= i - start ==> #[trigger] decimal_value(d.take(k)) <= usize::MAX,
        decreases n - i,
    {
        let c = s.get_char(i);
        let ghost j: int = i - start;
        assert(d[j] == c);
        if !('0' <= c && c <= '9') {
            assert forall|k: int|
                0 < k <= d.len() && all_digits(d.take(k)) implies #[trigger] decimal_value(
                d.take(k),
            ) <= usize::MAX by {
                if k > j {
                    assert(d.take(k)[j] == c);
                    assert(!is_digit(d.take(k)[j]));
                } else {
                    assert(decimal_value(d.take(k)) <= usize::MAX);
                }
            }
            assert(!all_digits(d)) by {
                assert(!is_digit(d[j]));
            }
            return Err(IndexError::InvalidDigit);
        }
        let x: usize = (c as u32 - '0' as u32) as usize;
        assert(d.take(j + 1).drop_last() =~= d.take(j));
        assert(d.take(j + 1).last() == c);
        assert(decimal_value(d.take(j + 1)) == acc * 10 + x);
        assert(all_digits(d.take(j + 1))) by {
            assert forall|m: int| 0 <= m < j + 1 implies #[trigger] is_digit(d.take(j + 1)[m]) by {
                if m < j {
                    assert(d.take(j + 1)[m] == d.take(j)[m]);
                }
            }
        }
        match acc.checked_mul(10) {
            None => {
                assert(decimal_value(d.take(j + 1)) > usize::MAX);
                return Err(IndexError::PosOverflow);
            },
            Some(m) => match m.checked_add(x) {
                None => {
                    assert(decimal_value(d.take(j + 1)) > usize::MAX);
                    return Err(IndexError::PosOverflow);
                },
                Some(v) => {
                    acc = v;
                },
            },
        }
        i = i + 1;
    }
    assert(d.take(d.len() as int) =~= d);
    Ok(acc)
}

/// Whether `a` and `b` are the same text.
pub fn same_text(a: &str, b: &str) -> (r: bool)
    ensures
        r == (a@ == b@),
{
    let n = a.unicode_len();
    if n != b.unicode_len() {
        return false;
    }
    for i in 0..n
        invariant
            n == a@.len(),
            n == b@.len(),
            forall|k: int| 0 <= k < i ==> a@[k] == b@[k],
    {
        if a.get_char(i) != b.get_char(i) {
            return false;
        }
    }
    assert(a@ =~= b@);
    true
}


/// A single digit is worth its own value.
pub proof fn lemma_decimal_value_digit(c: char)
    requires
        is_digit(c),
    ensures
        decimal_value(seq![c]) == c as nat - '0' as nat,
{
    assert(seq![c].drop_last() =~= Seq::<char>::empty());
    assert(seq![c].last() == c);
    assert(decimal_value(Seq::<char>::empty()) == 0);
}

/// Writing the digits `t` after the digits `s` shifts `s` by one decimal place
/// per digit of `t`: `value(s + t) == value(s) * 10^|t| + value(t)`. With the
/// single-digit case this fixes the value of every string of digits.
pub proof fn lemma_decimal_value_concat(s: Seq<char>, t: Seq<char>)
    ensures
        decimal_value(s + t) == decimal_value(s) * pow(10, t.len()) + decimal_value(t),
    decreases t.len(),
{
    reveal(pow);
    if t.len() == 0 {
        assert(s + t =~= s);
        assert(pow(10, 0) == 1);
        assert(decimal_value(t) == 0);
        assert(decimal_value(s) * 1 == decimal_value(s));
    } else {
        let t1 = t.drop_last();
        assert((s + t).drop_last() =~= s + t1);
        assert((s + t).last() == t.last());
        lemma_decimal_value_concat(s, t1);
        let a = decimal_value(s) as int;
        let p = pow(10, t1.len());
        let b = decimal_value(t1) as int;
        let d = (t.last() as nat - '0' as nat) as nat as int;
        assert(pow(10, t.len()) == 10 * p);
        assert((a * p + b) * 10 + d == a * (10 * p) + (b * 10 + d)) by (nonlinear_arith);
        assert(decimal_value(s + t) == (a * p + b) * 10 + d);
        assert(decimal_value(t) == b * 10 + d);
        assert(decimal_value(s) * pow(10, t.len()) == a * (10 * p));
    }
}

/// The decimal digits of `k` are digits and spell `k`.
pub proof fn lemma_decimal_digits(k: nat)
    ensures
        decimal_digits(k).len() > 0,
        all_digits(decimal_digits(k)),
        decimal_value(decimal_digits(k)) == k,
        decimal_digits(k)[0] != '+',
    decreases k,
{
    if k < 10 {
        assert(seq![digit_char(k)].drop_last() =~= Seq::<char>::empty());
        assert(seq![digit_char(k)].last() == digit_char(k));
        assert(decimal_value(Seq::<char>::empty()) == 0);
        assert(digit_char(k) as nat == '0' as nat + k);
    } else {
        lemma_decimal_digits(k / 10);
        let s = decimal_digits(k / 10);
        assert(digit_char(k % 10) as nat == '0' as nat + k % 10);
        assert(s.push(digit_char(k % 10)).drop_last() =~= s);
        assert(s.push(digit_char(k % 10)).last() == digit_char(k % 10));
        assert forall|i: int| 0 <= i < s.len() + 1 implies #[trigger] is_digit(
            s.push(digit_char(k % 10))[i],
        ) by {
            if i < s.len() {
                assert(s.push(digit_char(k % 10))[i] == s[i]);
            }
        }
        assert((k / 10) * 10 + k % 10 == k);
    }
}

/// A leading part of a string of digits is worth no more than the whole.
proof fn lemma_prefix_value_le(s: Seq<char>, j: int)
    requires
        all_digits(s),
        0 <= j <= s.len(),
    ensures
        decimal_value(s.take(j)) <= decimal_value(s),
    decreases s.len() - j,
{
    if j == s.len() {
        assert(s.take(j) =~= s);
    } else {
        lemma_prefix_value_le(s, j + 1);
        assert(s.take(j + 1).drop_last() =~= s.take(j));
    }
}

/// Parsing the decimal digits of any `k` that fits in a `usize` gives `k`.
pub proof fn lemma_parse_decimal_digits(k: nat)
    requires
        k <= usize::MAX,
    ensures
        spec_parse_index(decimal_digits(k)) == Ok::<usize, IndexError>(k as usize),
{
    let t = decimal_digits(k);
    lemma_decimal_digits(k);
    assert(unsigned_digits(t) == t);
    assert forall|j: int|
        0 < j <= t.len() && all_digits(t.take(j)) implies #[trigger] decimal_value(t.take(j))
        <= usize::MAX by {
        lemma_prefix_value_le(t, j);
    }
}

} // verus!
