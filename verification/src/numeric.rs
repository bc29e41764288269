//! Decimal parsing of signed 64-bit integers, specified over character
//! sequences: an optional `+` or `-` sign followed by at least one decimal
//! digit, and a value within the type's range.

use vstd::prelude::*;

verus! {

/// Whether `c` is a decimal digit.
pub open spec fn is_digit_char(c: char) -> bool {
    48 <= (c as u32) <= 57
}

/// The numeric value of a decimal digit.
pub open spec fn digit_val(c: char) -> int {
    (c as u32) - 48
}

/// Whether every character of `s` is a decimal digit.
pub open spec fn all_digits(s: Seq<char>) -> bool {
    forall|i: int| 0 <= i < s.len() ==> is_digit_char(#[trigger] s[i])
}

/// The value of a digit sequence read in base ten.
pub open spec fn digits_val(s: Seq<char>) -> int
    decreases s.len(),
{
    if s.len() == 0 {
        0
    } else {
        digits_val(s.drop_last()) * 10 + digit_val(s.last())
    }
}

/// The digits of an integer string, with any leading sign removed.
pub open spec fn int_body(s: Seq<char>) -> Seq<char> {
    if s.len() > 0 && (s[0] == '+' || s[0] == '-') {
        s.subrange(1, s.len() as int)
    } else {
        s
    }
}

/// Whether the integer string carries a leading minus sign.
pub open spec fn int_negative(s: Seq<char>) -> bool {
    s.len() > 0 && s[0] == '-'
}

/// The signed value denoted by an integer string (meaningful only when the
/// body is all digits).
pub open spec fn int_value(s: Seq<char>) -> int {
    if int_negative(s) {
        -digits_val(int_body(s))
    } else {
        digits_val(int_body(s))
    }
}

/// Whether `s` denotes an `i64`: an optional sign, at least one digit,
/// nothing else, and a value within range.
pub open spec fn is_i64_string(s: Seq<char>) -> bool {
    &&& int_body(s).len() > 0
    &&& all_digits(int_body(s))
    &&& i64::MIN <= int_value(s) <= i64::MAX
}

/// What parsing `s` as an `i64` yields.
pub open spec fn spec_parse_i64(s: Seq<char>) -> Option<i64> {
    if is_i64_string(s) {
        Some(int_value(s) as i64)
    } else {
        None
    }
}

/// A digit sequence has a non-negative value.
pub proof fn lemma_digits_val_nonneg(s: Seq<char>)
    requires
        all_digits(s),
    ensures
        digits_val(s) >= 0,
    decreases s.len(),
{
    if s.len() > 0 {
        assert(all_digits(s.drop_last()));
        lemma_digits_val_nonneg(s.drop_last());
    }
}

/// Extending a digit sequence never decreases its value: the value of a
/// prefix bounds the value of the whole from below.
pub proof fn lemma_digits_val_prefix_le(s: Seq<char>, t: Seq<char>)
    requires
        all_digits(t),
        s.len() <= t.len(),
        s == t.subrange(0, s.len() as int),
    ensures
        digits_val(s) <= digits_val(t),
    decreases t.len() - s.len(),
{
    if s.len() < t.len() {
        let u = t.subrange(0, s.len() as int + 1);
        assert(all_digits(u)) by {
            assert(forall|i: int| 0 <= i < u.len() ==> u[i] == t[i]);
        }
        assert(u.drop_last() =~= s);
        assert(digits_val(u) == digits_val(s) * 10 + digit_val(u.last()));
        assert(is_digit_char(u[u.len() - 1]));
        assert(digit_val(u.last()) >= 0);
        lemma_digits_val_nonneg(s);
        assert(digits_val(s) <= digits_val(u));
        lemma_digits_val_prefix_le(u, t);
    } else {
        assert(s =~= t);
    }
}

/// The value of a digit sequence of up to four digits, bounded by its
/// length.
pub proof fn lemma_digits_val_len_bound(s: Seq<char>)
    requires
        all_digits(s),
    ensures
        s.len() == 0 ==> digits_val(s) == 0,
        s.len() == 1 ==> 0 <= digits_val(s) <= 9,
        s.len() == 2 ==> 0 <= digits_val(s) <= 99,
        s.len() == 3 ==> 0 <= digits_val(s) <= 999,
        s.len() == 4 ==> 0 <= digits_val(s) <= 9999,
    decreases s.len(),
{
    if s.len() > 0 {
        assert(all_digits(s.drop_last()));
        lemma_digits_val_len_bound(s.drop_last());
        assert(is_digit_char(s[s.len() - 1]));
        assert(0 <= digit_val(s.last()) <= 9);
        assert(digits_val(s) == digits_val(s.drop_last()) * 10 + digit_val(s.last()));
    }
}

/// Reading a two-digit sequence positionally.
pub proof fn lemma_digits_val2(s: Seq<char>)
    requires
        s.len() == 2,
    ensures
        digits_val(s) == digit_val(s[0]) * 10 + digit_val(s[1]),
{
    let t = s.drop_last();
    let u = t.drop_last();
    assert(u.len() == 0);
    assert(digits_val(u) == 0);
    assert(digits_val(t) == digits_val(u) * 10 + digit_val(t.last()));
    assert(t.last() == s[0]);
    assert(digits_val(s) == digits_val(t) * 10 + digit_val(s.last()));
    assert(s.last() == s[1]);
}

/// Reading a four-digit sequence positionally.
pub proof fn lemma_digits_val4(s: Seq<char>)
    requires
        s.len() == 4,
    ensures
        digits_val(s) == ((digit_val(s[0]) * 10 + digit_val(s[1])) * 10 + digit_val(s[2])) * 10
            + digit_val(s[3]),
{
    let t3 = s.drop_last();
    let t2 = t3.drop_last();
    lemma_digits_val2(t2);
    assert(t2[0] == s[0] && t2[1] == s[1]);
    assert(digits_val(t3) == digits_val(t2) * 10 + digit_val(t3.last()));
    assert(t3.last() == s[2]);
    assert(digits_val(s) == digits_val(t3) * 10 + digit_val(s.last()));
    assert(s.last() == s[3]);
}

/// Parses `s` as a signed decimal 64-bit integer, exactly when
/// [`spec_parse_i64`] says it denotes one.
pub fn parse_i64(s: &str) -> (r: Option<i64>)
    ensures
        r == spec_parse_i64(s@),
{
    let n = s.unicode_len();
    let mut start: usize = 0;
    let mut neg = false;
    if n > 0 {
        let c0 = s.get_char(0);
        if c0 == '-' {
            neg = true;
            start = 1;
        } else if c0 == '+' {
            start = 1;
        }
    }
    proof {
        assert(int_body(s@) =~= s@.subrange(start as int, n as int));
        assert(int_negative(s@) == neg);
    }
    if start == n {
        // no digits at all
        return None;
    }
    let limit: u64 = if neg {
        9223372036854775808
    } else {
        9223372036854775807
    };
    let ghost body = s@.subrange(start as int, n as int);
    let mut mag: u64 = 0;
    let mut j: usize = start;
    while j < n
        invariant
            start <= j <= n,
            n == s@.len(),
            body == s@.subrange(start as int, n as int),
            int_body(s@) == body,
            int_negative(s@) == neg,
            neg ==> limit == 9223372036854775808,
            !neg ==> limit == 9223372036854775807,
            all_digits(s@.subrange(start as int, j as int)),
            mag == digits_val(s@.subrange(start as int, j as int)),
            mag <= limit,
        decreases n - j,
    {
        let c = s.get_char(j);
        let cv = c as u32;
        let ghost prefix = s@.subrange(start as int, j as int);
        proof {
            assert(s@.subrange(start as int, (j + 1) as int).drop_last() =~= prefix);
            assert(s@.subrange(start as int, (j + 1) as int).last() == s@[j as int]);
        }
        if cv < 48 || cv > 57 {
            // a non-digit in the body: not an integer string
            proof {
                assert(body[j - start] == s@[j as int]);
                assert(!is_digit_char(c));
                assert(!all_digits(body));
                assert(int_body(s@) =~= body);
                assert(!all_digits(int_body(s@)));
                assert(!is_i64_string(s@));
            }
            return None;
        }
        let d = (cv - 48) as u64;
        let next: u128 = (mag as u128) * 10 + (d as u128);
        if next > (limit as u128) {
            // the value read so far already exceeds the range
            proof {
                let grown = s@.subrange(start as int, (j + 1) as int);
                assert(digits_val(grown) == mag * 10 + d);
                assert(digits_val(grown) > limit);
                assert(int_body(s@) =~= body);
                if all_digits(body) {
                    assert(grown =~= body.subrange(0, grown.len() as int));
                    lemma_digits_val_prefix_le(grown, body);
                    assert(digits_val(body) > limit);
                    if neg {
                        assert(int_value(s@) == -digits_val(body));
                        assert(int_value(s@) < i64::MIN);
                    } else {
                        assert(int_value(s@) > i64::MAX);
                    }
                    assert(!is_i64_string(s@));
                } else {
                    assert(!all_digits(int_body(s@)));
                    assert(!is_i64_string(s@));
                }
            }
            return None;
        }
        mag = next as u64;
        proof {
            assert(s@.subrange(start as int, (j + 1) as int) =~= prefix.push(s@[j as int]));
            assert(mag == digits_val(s@.subrange(start as int, (j + 1) as int)));
            assert(all_digits(s@.subrange(start as int, (j + 1) as int)));
        }
        j += 1;
    }
    proof {
        assert(s@.subrange(start as int, j as int) =~= body);
        assert(mag == digits_val(body));
        assert(is_i64_string(s@));
    }
    if neg {
        if mag == 9223372036854775808 {
            Some(i64::MIN)
        } else {
            Some(-(mag as i64))
        }
    } else {
        Some(mag as i64)
    }
}

} // verus!
