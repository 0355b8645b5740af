//! Decimal text: parsing signed 64-bit integers from header text and
//! formatting them back for the signing base string.

use vstd::prelude::*;

verus! {

/// Compares two string slices character by character.
pub fn str_eq(a: &str, b: &str) -> (r: bool)
    ensures
        r == (a@ == b@),
{
    let alen = a.unicode_len();
    let blen = b.unicode_len();
    if alen != blen {
        return false;
    }
    let mut i: usize = 0;
    while i < alen
        invariant
            alen == a@.len(),
            blen == b@.len(),
            alen == blen,
            0 <= i <= alen,
            forall|j: int| 0 <= j < i ==> a@[j] == b@[j],
        decreases alen - i,
    {
        if a.get_char(i) != b.get_char(i) {
            return false;
        }
        i += 1;
    }
    proof {
        assert(a@ =~= b@);
    }
    true
}

/// Relies on String::push from std: appends the character to the end of the string.
#[verifier::external_body]
pub(crate) fn push_char(s: &mut String, c: char)
    ensures
        final(s)@ == old(s)@.push(c),
{
    s.push(c);
}

pub open spec fn is_dec_digit(c: char) -> bool {
    48 <= c as u32 <= 57
}

pub open spec fn dec_digit_val(c: char) -> int {
    c as u32 - 48
}

pub open spec fn all_dec_digits(s: Seq<char>) -> bool {
    forall|i: int| 0 <= i < s.len() ==> is_dec_digit(s[i])
}

/// The integer denoted by a sequence of decimal digits (most significant first).
pub open spec fn dec_value(s: Seq<char>) -> int
    decreases s.len(),
{
    if s.len() == 0 {
        0
    } else {
        dec_value(s.drop_last()) * 10 + dec_digit_val(s.last())
    }
}

/// The texts accepted by integer parsing: an optional single sign
/// followed by at least one decimal digit.
pub open spec fn dec_int_text(s: Seq<char>) -> bool {
    &&& s.len() > 0
    &&& if s[0] == '-' || s[0] == '+' {
        s.len() > 1 && all_dec_digits(s.skip(1))
    } else {
        all_dec_digits(s)
    }
}

/// The signed value a decimal text denotes, before any range check.
pub open spec fn dec_int_value(s: Seq<char>) -> int {
    if s[0] == '-' {
        -dec_value(s.skip(1))
    } else if s[0] == '+' {
        dec_value(s.skip(1))
    } else {
        dec_value(s)
    }
}

/// What parsing a 64-bit integer from text yields: the denoted value when the
/// text is well formed and the value fits, nothing otherwise.
pub open spec fn spec_parse_i64(s: Seq<char>) -> Option<i64> {
    if dec_int_text(s) && i64::MIN <= dec_int_value(s) <= i64::MAX {
        Some(dec_int_value(s) as i64)
    } else {
        None
    }
}

proof fn lemma_dec_value_nonneg(s: Seq<char>)
    requires
        all_dec_digits(s),
    ensures
        dec_value(s) >= 0,
    decreases s.len(),
{
    if s.len() > 0 {
        lemma_dec_value_nonneg(s.drop_last());
    }
}

/// Parses a signed 64-bit integer from decimal text, as the platform's
/// standard integer parsing does: one optional sign, then only digits,
/// rejecting anything out of range.
pub fn parse_i64(s: &str) -> (r: Option<i64>)
    ensures
        r == spec_parse_i64(s@),
{
    let n = s.unicode_len();
    if n == 0 {
        return None;
    }
    let first = s.get_char(0);
    let neg = first == '-';
    let has_sign = neg || first == '+';
    let start: usize = if has_sign {
        1
    } else {
        0
    };
    if start >= n {
        return None;
    }
    let ghost digits = s@.skip(start as int);
    let mut i: usize = start;
    let mut mag: u128 = 0;
    let mut over: bool = false;
    while i < n
        invariant
            n == s@.len(),
            start <= i <= n,
            start == if has_sign { 1int } else { 0int },
            start < n,
            neg == (s@[0] == '-'),
            has_sign == (s@[0] == '-' || s@[0] == '+'),
            digits == s@.skip(start as int),
            forall|j: int| start <= j < i ==> is_dec_digit(s@[j]),
            !over ==> mag == dec_value(s@.subrange(start as int, i as int)) && mag
                <= 9223372036854775808u128,
            over ==> dec_value(s@.subrange(start as int, i as int)) > 9223372036854775808u128,
        decreases n - i,
    {
        let c = s.get_char(i);
        let cv = c as u32;
        if cv < 48 || cv > 57 {
            proof {
                assert(!is_dec_digit(s@[i as int]));
                if has_sign {
                    assert(s@.skip(1)[i - 1] == s@[i as int]);
                    assert(!all_dec_digits(s@.skip(1)));
                } else {
                    assert(!all_dec_digits(s@));
                }
            }
            return None;
        }
        let d: u128 = (cv - 48) as u128;
        proof {
            let pre = s@.subrange(start as int, i as int);
            let post = s@.subrange(start as int, i + 1);
            assert(post.drop_last() =~= pre);
            assert(post.last() == s@[i as int]);
            assert(dec_value(post) == dec_value(pre) * 10 + d);
            if !over {
                lemma_dec_value_nonneg(pre);
            }
        }
        if over {
            proof {
                let pre = s@.subrange(start as int, i as int);
                assert(dec_value(pre) * 10 >= dec_value(pre)) by {
                    assert(dec_value(pre) > 0);
                    assert(dec_value(pre) * 10 - dec_value(pre) == dec_value(pre) * 9)
                        by (nonlinear_arith);
                    assert(dec_value(pre) * 9 > 0) by (nonlinear_arith)
                        requires dec_value(pre) > 0;
                }
            }
        } else {
            let nmag = mag * 10 + d;
            if nmag > 9223372036854775808u128 {
                over = true;
            } else {
                mag = nmag;
            }
        }
        i += 1;
    }
    proof {
        assert(s@.subrange(start as int, n as int) =~= digits);
        assert(all_dec_digits(digits));
        if has_sign {
            assert(dec_int_text(s@));
        } else {
            assert(digits =~= s@);
            assert(dec_int_text(s@));
        }
        lemma_dec_value_nonneg(digits);
    }
    if over {
        proof {
            assert(dec_value(digits) > 9223372036854775808);
            if neg {
                assert(dec_int_value(s@) < i64::MIN);
            } else {
                assert(dec_int_value(s@) > i64::MAX);
            }
        }
        None
    } else if neg {
        if mag == 9223372036854775808u128 {
            Some(i64::MIN)
        } else {
            Some(-((mag as u64) as i64))
        }
    } else {
        if mag <= 9223372036854775807u128 {
            Some(mag as i64)
        } else {
            None
        }
    }
}

pub open spec fn dec_digit_char(d: int) -> char
    recommends
        0 <= d < 10,
{
    if d == 0 {
        '0'
    } else if d == 1 {
        '1'
    } else if d == 2 {
        '2'
    } else if d == 3 {
        '3'
    } else if d == 4 {
        '4'
    } else if d == 5 {
        '5'
    } else if d == 6 {
        '6'
    } else if d == 7 {
        '7'
    } else if d == 8 {
        '8'
    } else {
        '9'
    }
}

/// The canonical decimal text of a non-negative integer: no sign, no
/// leading zeros.
pub open spec fn dec_text_nat(n: int) -> Seq<char>
    recommends
        n >= 0,
    decreases n,
{
    if n < 10 {
        seq![dec_digit_char(n)]
    } else {
        dec_text_nat(n / 10).push(dec_digit_char(n % 10))
    }
}

/// The canonical decimal text of a signed integer.
pub open spec fn dec_text_i64(n: int) -> Seq<char> {
    if n < 0 {
        seq!['-'] + dec_text_nat(-n)
    } else {
        dec_text_nat(n)
    }
}

proof fn lemma_dec_text_nat_value(n: int)
    requires
        n >= 0,
    ensures
        dec_text_nat(n).len() > 0,
        all_dec_digits(dec_text_nat(n)),
        dec_value(dec_text_nat(n)) == n,
    decreases n,
{
    if n < 10 {
        let t = dec_text_nat(n);
        assert(t =~= seq![dec_digit_char(n)]);
        assert(t.drop_last() =~= Seq::<char>::empty());
        assert(t.last() == dec_digit_char(n));
        assert(dec_value(Seq::<char>::empty()) == 0);
        assert(dec_value(t) == dec_digit_val(dec_digit_char(n)));
    } else {
        lemma_dec_text_nat_value(n / 10);
        let t = dec_text_nat(n / 10);
        assert(t.push(dec_digit_char(n % 10)).drop_last() =~= t);
        assert(forall|i: int|
            0 <= i < t.push(dec_digit_char(n % 10)).len() ==> is_dec_digit(
                #[trigger] t.push(dec_digit_char(n % 10))[i],
            ));
    }
}

/// Formatting is the parser's inverse: the canonical decimal text of a
/// value parses back to exactly that value.
pub proof fn lemma_parse_formatted(n: i64)
    requires
        n > i64::MIN,
    ensures
        spec_parse_i64(dec_text_i64(n as int)) == Some(n),
{
    if n >= 0 {
        lemma_dec_text_nat_value(n as int);
        let t = dec_text_nat(n as int);
        assert(is_dec_digit(t[0]));
        assert(t[0] != '-' && t[0] != '+');
        assert(dec_int_text(t));
        assert(dec_int_value(t) == n);
    } else {
        lemma_dec_text_nat_value(-(n as int));
        let m = dec_text_nat(-(n as int));
        let t = seq!['-'] + m;
        assert(t[0] == '-');
        assert(t.skip(1) =~= m);
        assert(dec_int_text(t));
        assert(dec_int_value(t) == -dec_value(m) == n);
    }
}

fn exec_dec_digit_char(d: u64) -> (r: char)
    requires
        d < 10,
    ensures
        r == dec_digit_char(d as int),
{
    match d {
        0 => '0',
        1 => '1',
        2 => '2',
        3 => '3',
        4 => '4',
        5 => '5',
        6 => '6',
        7 => '7',
        8 => '8',
        _ => '9',
    }
}

/// Appends the canonical decimal text of `m` to `out`.
pub fn append_u64_dec(out: &mut String, m: u64)
    ensures
        final(out)@ == old(out)@ + dec_text_nat(m as int),
    decreases m,
{
    if m < 10 {
        push_char(out, exec_dec_digit_char(m));
        proof {
            assert(old(out)@ + dec_text_nat(m as int) =~= old(out)@.push(dec_digit_char(m as int)));
        }
    } else {
        append_u64_dec(out, m / 10);
        push_char(out, exec_dec_digit_char(m % 10));
        proof {
            assert(old(out)@ + dec_text_nat(m as int) =~= (old(out)@ + dec_text_nat(
                m as int / 10,
            )).push(dec_digit_char(m as int % 10)));
        }
    }
}

/// Appends the canonical decimal text of `n` to `out`.
pub fn append_i64_dec(out: &mut String, n: i64)
    requires
        n > i64::MIN,
    ensures
        final(out)@ == old(out)@ + dec_text_i64(n as int),
{
    if n < 0 {
        push_char(out, '-');
        append_u64_dec(out, (-n) as u64);
        proof {
            assert(old(out)@ + dec_text_i64(n as int) =~= old(out)@.push('-') + dec_text_nat(
                -(n as int),
            ));
        }
    } else {
        append_u64_dec(out, n as u64);
    }
}

} // verus!
