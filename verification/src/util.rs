//! Small argument-checking helpers shared by the command-line tools.

use vstd::prelude::*;

verus! {

/// A decimal digit.
pub open spec fn is_digit_char(c: char) -> bool {
    48 <= c as u32 <= 57
}

/// The value of a string of decimal digits.
pub open spec fn digits_value(s: Seq<char>) -> int
    decreases s.len(),
{
    if s.len() == 0 {
        0
    } else {
        digits_value(s.drop_last()) * 10 + (s.last() as u32 - 48)
    }
}

/// The digits of a numeric argument: everything after an optional
/// leading plus sign.
pub open spec fn digits_part(s: Seq<char>) -> Seq<char> {
    if s.len() > 0 && s[0] == '+' {
        s.subrange(1, s.len() as int)
    } else {
        s
    }
}

/// Whether a string parses as an unsigned machine integer: an optional
/// leading plus sign, then at least one decimal digit, with a value that
/// fits.
pub open spec fn parses_as_usize(s: Seq<char>) -> bool {
    &&& digits_part(s).len() > 0
    &&& (forall|j: int|
        0 <= j < digits_part(s).len() ==> is_digit_char(#[trigger] digits_part(s)[j]))
    &&& digits_value(digits_part(s)) <= usize::MAX
}

/// Extending a digit string never shrinks its value.
proof fn lemma_digits_value_monotone(s: Seq<char>, i: int)
    requires
        0 <= i <= s.len(),
        forall|j: int| 0 <= j < s.len() ==> is_digit_char(#[trigger] s[j]),
    ensures
        digits_value(s.subrange(0, i)) <= digits_value(s),
    decreases s.len() - i,
{
    if i < s.len() {
        assert(s.subrange(0, i + 1).drop_last() =~= s.subrange(0, i));
        assert(s.subrange(0, i + 1).last() == s[i]);
        assert(digits_value(s.subrange(0, i)) >= 0) by {
            lemma_digits_value_nonneg(s.subrange(0, i));
        }
        assert(digits_value(s.subrange(0, i)) <= digits_value(s.subrange(0, i + 1)));
        lemma_digits_value_monotone(s, i + 1);
    } else {
        assert(s.subrange(0, i) =~= s);
    }
}

/// A digit string's value is never negative.
proof fn lemma_digits_value_nonneg(s: Seq<char>)
    requires
        forall|j: int| 0 <= j < s.len() ==> is_digit_char(#[trigger] s[j]),
    ensures
        digits_value(s) >= 0,
    decreases s.len(),
{
    if s.len() > 0 {
        assert(forall|j: int| 0 <= j < s.len() - 1 ==> s.drop_last()[j] == s[j]);
        lemma_digits_value_nonneg(s.drop_last());
    }
}

/// Checks that an argument is a well-formed unsigned integer, as the
/// command-line tools demand of their numeric flags.
pub fn is_usize(arg: String) -> (r: Result<(), String>)
    ensures
        r is Ok <==> parses_as_usize(arg@),
{
    let s = arg.as_str();
    let n = s.unicode_len();
    let start: usize = if n > 0 && s.get_char(0) == '+' {
        1
    } else {
        0
    };
    let ghost d = digits_part(arg@);
    proof {
        assert(d.len() == n - start);
        assert(forall|j: int| 0 <= j < d.len() ==> d[j] == arg@[start + j]);
    }
    if n == start {
        proof {
            assert(d.len() == 0);
        }
        return Err("not an unsigned integer".to_owned());
    }
    let mut i: usize = start;
    let mut acc: usize = 0;
    while i < n
        invariant
            start <= i <= n,
            start <= 1,
            n == arg@.len(),
            s@ == arg@,
            d == digits_part(arg@),
            start == 1 <==> arg@.len() > 0 && arg@[0] == '+',
            d.len() == n - start,
            forall|j: int| 0 <= j < d.len() ==> d[j] == arg@[start + j],
            forall|j: int| start <= j < i ==> is_digit_char(#[trigger] arg@[j]),
            acc == digits_value(d.subrange(0, i - start)),
        decreases n - i,
    {
        let c = s.get_char(i);
        let v = c as u32;
        proof {
            assert(d.subrange(0, i + 1 - start).drop_last() =~= d.subrange(0, i - start));
            assert(d.subrange(0, i + 1 - start).last() == arg@[i as int]);
        }
        if v < 48 || v > 57 {
            proof {
                if parses_as_usize(arg@) {
                    assert(is_digit_char(digits_part(arg@)[i - start]));
                    assert(d[i - start] == arg@[i as int]);
                }
            }
            return Err("not an unsigned integer".to_owned());
        }
        let digit = (v - 48) as usize;
        let widened = match acc.checked_mul(10) {
            Some(w) => w,
            None => {
                proof {
                    overflow_refutes_parse(arg@, d, i as int, (i + 1) as int - (start as int));
                }
                return Err("not an unsigned integer".to_owned());
            }
        };
        let next = match widened.checked_add(digit) {
            Some(x) => x,
            None => {
                proof {
                    overflow_refutes_parse(arg@, d, i as int, (i + 1) as int - (start as int));
                }
                return Err("not an unsigned integer".to_owned());
            }
        };
        acc = next;
        i = i + 1;
    }
    proof {
        assert(d.subrange(0, d.len() as int) =~= d);
    }
    Ok(())
}

/// When a digit prefix already exceeds the representable range, the
/// whole argument cannot parse.
proof fn overflow_refutes_parse(s: Seq<char>, d: Seq<char>, i: int, upto: int)
    requires
        d == digits_part(s),
        0 < upto <= d.len(),
        forall|j: int| 0 <= j < upto ==> is_digit_char(#[trigger] d[j]),
        digits_value(d.subrange(0, upto)) > usize::MAX,
    ensures
        !parses_as_usize(s),
{
    if parses_as_usize(s) {
        assert forall|j: int| 0 <= j < d.len() implies is_digit_char(#[trigger] d[j]) by {
            assert(is_digit_char(digits_part(s)[j]));
        }
        assert(digits_value(digits_part(s)) <= usize::MAX);
        lemma_digits_value_monotone(d, upto);
        assert(false);
    }
}

} // verus!
