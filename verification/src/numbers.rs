use vstd::prelude::*;
use crate::text::{spec_is_digit, is_digit, spec_split, spec_join, split_char, join_with};

verus! {

/// Numeric value of a digit sequence, most significant digit first.
pub open spec fn digits_value(s: Seq<char>) -> int
    decreases s.len(),
{
    if s.len() == 0 {
        0
    } else {
        digits_value(s.subrange(0, s.len() - 1)) * 10 + (s[s.len() - 1] as int - '0' as int)
    }
}

/// Every character of `s` is an ASCII decimal digit.
pub open spec fn all_digits(s: Seq<char>) -> bool {
    forall|i: int| 0 <= i < s.len() ==> spec_is_digit(s[i])
}

/// A digit sequence has a non-negative value.
pub proof fn lemma_digits_value_nonneg(s: Seq<char>)
    requires
        all_digits(s),
    ensures
        digits_value(s) >= 0,
    decreases s.len(),
{
    if s.len() > 0 {
        let pre = s.subrange(0, s.len() - 1);
        assert(all_digits(pre));
        lemma_digits_value_nonneg(pre);
    }
}

/// The value of a digit sequence is at least the value of any of its prefixes.
pub proof fn lemma_digits_value_prefix(s: Seq<char>, i: int)
    requires
        all_digits(s),
        0 <= i <= s.len(),
    ensures
        digits_value(s) >= digits_value(s.subrange(0, i)),
    decreases s.len(),
{
    if i == s.len() {
        assert(s.subrange(0, i) =~= s);
    } else {
        let pre = s.subrange(0, s.len() - 1);
        assert(all_digits(pre));
        lemma_digits_value_nonneg(pre);
        lemma_digits_value_prefix(pre, i);
        assert(pre.subrange(0, i) =~= s.subrange(0, i));
    }
}

/// `str::parse::<u32>`: an optional plus sign, then at least one digit,
/// with a value in range.
pub open spec fn spec_parse_u32(s: Seq<char>) -> Option<u32> {
    let digits = if s.len() >= 1 && s[0] == '+' {
        s.subrange(1, s.len() as int)
    } else {
        s
    };
    if digits.len() >= 1 && all_digits(digits) && digits_value(digits) <= u32::MAX {
        Some(digits_value(digits) as u32)
    } else {
        None
    }
}

/// Executable unsigned parse, equal to `spec_parse_u32`.
pub fn parse_u32(s: &str) -> (r: Option<u32>)
    ensures
        r == spec_parse_u32(s@),
{
    let n = s.unicode_len();
    let start: usize = if n >= 1 && s.get_char(0) == '+' {
        1
    } else {
        0
    };
    let ghost digits = if start == 1 {
        s@.subrange(1, n as int)
    } else {
        s@
    };
    if n == start {
        return None;
    }
    let mut acc: u64 = 0;
    let mut i: usize = start;
    while i < n
        invariant
            start <= i <= n,
            n == s@.len() <= usize::MAX,
            start == 0 || start == 1,
            start == 1 ==> s@.len() >= 1 && s@[0] == '+',
            start == 0 ==> !(s@.len() >= 1 && s@[0] == '+'),
            digits == if start == 1 { s@.subrange(1, n as int) } else { s@ },
            all_digits(s@.subrange(start as int, i as int)),
            acc as int == digits_value(s@.subrange(start as int, i as int)),
            acc <= u32::MAX as u64,
        decreases n - i,
    {
        let c = s.get_char(i);
        if !is_digit(c) {
            proof {
                assert(digits[i - start] == c);
            }
            return None;
        }
        let d: u64 = (c as u32 - '0' as u32) as u64;
        acc = acc * 10 + d;
        proof {
            let pre = s@.subrange(start as int, i as int);
            let cur = s@.subrange(start as int, i + 1);
            assert(cur.subrange(0, cur.len() - 1) =~= pre);
            assert(cur[cur.len() - 1] == c);
        }
        if acc > u32::MAX as u64 {
            proof {
                let cur = s@.subrange(start as int, i + 1);
                if all_digits(digits) {
                    assert(cur =~= digits.subrange(0, i + 1 - start));
                    lemma_digits_value_prefix(digits, i + 1 - start);
                }
            }
            return None;
        }
        i += 1;
    }
    proof {
        assert(s@.subrange(start as int, n as int) =~= digits);
    }
    Some(acc as u32)
}

/// `s` with every comma replaced by a period, as splitting on commas and
/// rejoining with periods produces it.
pub open spec fn spec_replace_commas(s: Seq<char>) -> Seq<char> {
    spec_join(spec_split(s, ','), seq!['.'])
}

/// Executable comma normalization, equal to `spec_replace_commas`.
pub fn replace_commas(s: &str) -> (r: String)
    ensures
        r@ == spec_replace_commas(s@),
{
    let parts = split_char(s, ',');
    let r = join_with(&parts, ".");
    proof {
        reveal_strlit(".");
        assert("."@ =~= seq!['.']);
    }
    r
}

} // verus!
