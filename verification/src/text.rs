//! Text handling for attribute files: trailing-whitespace trimming,
//! decimal integer parsing, and exact string comparison.
//!
//! Attribute files carry one token followed by a trailing newline; the
//! token is compared or parsed after trimming.

use vstd::prelude::*;
use vstd::string::StrSliceExecFns;

verus! {

/// The ASCII whitespace characters trimmed from the end of a token (a
/// trailing newline, in practice).
pub open spec fn is_trim_space(c: char) -> bool {
    c == ' ' || c == '\t' || c == '\n' || c == '\r' || c == '\x0c'
}

/// `s` with every trailing whitespace character removed.
pub open spec fn spec_trim_end(s: Seq<char>) -> Seq<char>
    decreases s.len(),
{
    if s.len() > 0 && is_trim_space(s.last())  {
        spec_trim_end(s.drop_last())
    } else {
        s
    }
}

/// Whether `c` is one of the trimmed whitespace characters.
fn is_trim_space_char(c: char) -> (b: bool)
    ensures
        b == is_trim_space(c),
{
    c == ' ' || c == '\t' || c == '\n' || c == '\r' || c == '\x0c'
}

/// `s` without its trailing whitespace (the trailing newline of an
/// attribute file).
pub fn trim_end(s: &str) -> (r: &str)
    ensures
        r@ == spec_trim_end(s@),
{
    let len = s.unicode_len();
    let mut end = len;
    proof {
        assert(s@.subrange(0, len as int) =~= s@);
    }
    loop
        invariant
            0 <= end <= len,
            len == s@.len(),
            spec_trim_end(s@) == spec_trim_end(s@.subrange(0, end as int)),
        ensures
            0 <= end <= s@.len(),
            spec_trim_end(s@) == s@.subrange(0, end as int),
        decreases end,
    {
        if end == 0 {
            proof {
                assert(s@.subrange(0, 0) =~= Seq::<char>::empty());
            }
            break;
        }
        let c = s.get_char(end - 1);
        if !is_trim_space_char(c) {
            proof {
                assert(s@.subrange(0, end as int).last() == c);
            }
            break;
        }
        proof {
            assert(s@.subrange(0, end as int).drop_last() =~= s@.subrange(0, end as int - 1));
        }
        end = end - 1;
    }
    s.substring_char(0, end)
}

/// Whether `c` is a decimal digit.
pub open spec fn is_dec_digit(c: char) -> bool {
    '0' as int <= c as int <= '9' as int
}

/// The numeric value of a decimal digit.
pub open spec fn digit_val(c: char) -> int {
    c as int - '0' as int
}

/// Whether every character of `s` is a decimal digit.
pub open spec fn all_dec_digits(s: Seq<char>) -> bool {
    forall|i: int| 0 <= i < s.len() ==> is_dec_digit(s[i])
}

/// The value of a digit string, most significant digit first.
pub open spec fn digits_val(s: Seq<char>) -> int
    decreases s.len(),
{
    if s.len() == 0 {
        0
    } else {
        10 * digits_val(s.drop_last()) + digit_val(s.last())
    }
}

/// The digits of a token: one leading `+` sign is allowed and skipped.
pub open spec fn spec_digits_part(s: Seq<char>) -> Seq<char> {
    if s.len() > 0 && s[0] == '+' {
        s.drop_first()
    } else {
        s
    }
}

/// What parsing a token as a `u64` yields: the value of its digits when
/// the token is a non-empty digit string (after an optional leading `+`)
/// whose value fits in a `u64`; nothing otherwise.
pub open spec fn spec_parse_u64(s: Seq<char>) -> Option<u64> {
    let d = spec_digits_part(s);
    if d.len() > 0 && all_dec_digits(d) && digits_val(d) <= u64::MAX {
        Some(digits_val(d) as u64)
    } else {
        None
    }
}

/// A digit string's value is never negative.
proof fn lemma_digits_val_nonneg(s: Seq<char>)
    requires
        all_dec_digits(s),
    ensures
        digits_val(s) >= 0,
    decreases s.len(),
{
    if s.len() > 0 {
        assert(all_dec_digits(s.drop_last()));
        lemma_digits_val_nonneg(s.drop_last());
    }
}

/// A digit string's value never falls below the value of any of its
/// prefixes.
proof fn lemma_digits_val_prefix(s: Seq<char>, i: int)
    requires
        all_dec_digits(s),
        0 <= i <= s.len(),
    ensures
        digits_val(s.take(i)) <= digits_val(s),
    decreases s.len(),
{
    if i == s.len() {
        assert(s.take(i) =~= s);
    } else {
        assert(all_dec_digits(s.drop_last()));
        assert(s.take(i) =~= s.drop_last().take(i));
        lemma_digits_val_prefix(s.drop_last(), i);
        lemma_digits_val_nonneg(s.drop_last());
    }
}

/// Parse a `u64` from a token: an optional leading `+`, then one or more
/// decimal digits whose value fits; anything else yields `None`.
pub fn parse_u64(s: &str) -> (r: Option<u64>)
    ensures
        r == spec_parse_u64(s@),
{
    let len = s.unicode_len();
    let start: usize = if len > 0 && s.get_char(0) == '+' {
        1
    } else {
        0
    };
    proof {
        assert(spec_digits_part(s@) =~= s@.subrange(start as int, len as int));
    }
    if start == len {
        return None;
    }
    let ghost d = s@.subrange(start as int, len as int);
    let mut acc: u64 = 0;
    let mut i = start;
    proof {
        assert(d.take(0) =~= Seq::<char>::empty());
    }
    while i < len
        invariant
            start <= i <= len,
            start < len,
            len == s@.len(),
            d == s@.subrange(start as int, len as int),
            d == spec_digits_part(s@),
            all_dec_digits(d.take(i - start)),
            acc == digits_val(d.take(i - start)),
        decreases len - i,
    {
        let c = s.get_char(i);
        let cv = c as u32;
        if cv < 48 || cv > 57 {
            proof {
                assert(d[i - start] == s@[i as int]);
                assert(!is_dec_digit(d[i - start]));
            }
            return None;
        }
        let dv = (cv - 48) as u64;
        proof {
            assert(d.take(i + 1 - start).drop_last() =~= d.take(i - start));
            assert(d.take(i + 1 - start).last() == s@[i as int]);
            assert(digits_val(d.take(i + 1 - start)) == 10 * acc + dv);
            assert(all_dec_digits(d.take(i + 1 - start)));
        }
        if acc > 1844674407370955161 || (acc == 1844674407370955161 && dv > 5) {
            proof {
                if all_dec_digits(d) {
                    lemma_digits_val_prefix(d, i + 1 - start);
                    assert(digits_val(d) > u64::MAX);
                }
            }
            return None;
        }
        acc = acc * 10 + dv;
        i = i + 1;
    }
    proof {
        assert(d.take(len - start) =~= d);
    }
    Some(acc)
}

/// Whether two strings hold exactly the same characters.
pub fn str_eq(a: &str, b: &str) -> (r: bool)
    ensures
        r == (a@ == b@),
{
    let alen = a.unicode_len();
    let blen = b.unicode_len();
    if alen != blen {
        return false;
    }
    let mut i: usize = 0;
    while i < alen
        invariant
            0 <= i <= alen,
            alen == a@.len(),
            alen == b@.len(),
            forall|j: int| 0 <= j < i ==> a@[j] == b@[j],
        decreases alen - i,
    {
        if a.get_char(i) != b.get_char(i) {
            return false;
        }
        i = i + 1;
    }
    proof {
        assert(a@ =~= b@);
    }
    true
}

} // verus!
