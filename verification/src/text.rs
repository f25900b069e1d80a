use vstd::prelude::*;
use vstd::string::StrSliceExecFns;

verus! {

/// Whether `c` is a decimal digit.
pub open spec fn is_digit(c: char) -> bool {
    48 <= c as int <= 57
}

/// The numeric value of a decimal digit.
pub open spec fn digit_val(c: char) -> int {
    c as int - 48
}

/// Every character of `s` is a decimal digit.
pub open spec fn all_digits(s: Seq<char>) -> bool {
    forall|i: int| 0 <= i < s.len() ==> is_digit(s[i])
}

/// The value of a sequence of decimal digits, most significant first.
pub open spec fn digits_value(s: Seq<char>) -> int
    decreases s.len(),
{
    if s.len() == 0 {
        0
    } else {
        digits_value(s.drop_last()) * 10 + digit_val(s.last())
    }
}

/// The mathematical integer that `s` denotes: an optional sign followed by
/// at least one decimal digit, with no other characters admitted.
pub open spec fn signed_int_of(s: Seq<char>) -> Option<int> {
    if s.len() > 0 && s[0] == '-' {
        digits_int_of(s.subrange(1, s.len() as int), true)
    } else if s.len() > 0 && s[0] == '+' {
        digits_int_of(s.subrange(1, s.len() as int), false)
    } else {
        digits_int_of(s, false)
    }
}

/// The value of the digit part, with the sign already stripped.
pub open spec fn digits_int_of(body: Seq<char>, neg: bool) -> Option<int> {
    if body.len() > 0 && all_digits(body) {
        if neg {
            Some(-digits_value(body))
        } else {
            Some(digits_value(body))
        }
    } else {
        None
    }
}

/// What parsing `s` as a 32-bit signed integer yields: the denoted value
/// when there is one and it fits, nothing otherwise.
pub open spec fn parsed_i32(s: Seq<char>) -> Option<int> {
    match signed_int_of(s) {
        Some(v) => if i32::MIN <= v <= i32::MAX {
            Some(v)
        } else {
            None
        },
        None => None,
    }
}

/// A sequence of digits denotes a non-negative value.
pub proof fn lemma_digits_value_nonneg(s: Seq<char>)
    requires
        all_digits(s),
    ensures
        digits_value(s) >= 0,
    decreases s.len(),
{
    if s.len() > 0 {
        assert(all_digits(s.drop_last()));
        lemma_digits_value_nonneg(s.drop_last());
    }
}

/// Reading further digits never decreases the denoted value.
pub proof fn lemma_digits_value_prefix_le(s: Seq<char>, j: int)
    requires
        all_digits(s),
        0 <= j <= s.len(),
    ensures
        digits_value(s.subrange(0, j)) <= digits_value(s),
    decreases s.len() - j,
{
    if j == s.len() {
        assert(s.subrange(0, j) =~= s);
    } else {
        lemma_digits_value_prefix_le(s, j + 1);
        let p = s.subrange(0, j + 1);
        assert(p.drop_last() =~= s.subrange(0, j));
        assert(all_digits(s.subrange(0, j)));
        lemma_digits_value_nonneg(s.subrange(0, j));
        assert(digits_value(p) == digits_value(s.subrange(0, j)) * 10 + digit_val(p.last()));
    }
}

/// Whether the two string slices hold the same characters.
pub fn str_eq(a: &str, b: &str) -> (r: bool)
    ensures
        r == (a@ == b@),
{
    let an: usize = a.unicode_len();
    let bn: usize = b.unicode_len();
    if an != bn {
        return false;
    }
    let mut i: usize = 0;
    while i < an
        invariant
            i <= an,
            an == a@.len(),
            an == b@.len(),
            forall|k: int| 0 <= k < i ==> a@[k] == b@[k],
        decreases an - i,
    {
        if a.get_char(i) != b.get_char(i) {
            return false;
        }
        i += 1;
    }
    proof {
        assert(a@ =~= b@);
    }
    true
}

/// Parse a 32-bit signed integer as the decimal grammar above defines it:
/// an optional sign, then one or more digits, nothing else, and a value
/// within the 32-bit range.
pub fn parse_i32(s: &str) -> (r: Option<i32>)
    ensures
        match parsed_i32(s@) {
            Some(v) => r == Some(v as i32) && v == (v as i32) as int,
            None => r is None,
        },
{
    let n: usize = s.unicode_len();
    let mut start: usize = 0;
    let mut neg: bool = false;
    if n > 0 {
        let c0: char = s.get_char(0);
        if c0 == '-' {
            neg = true;
            start = 1;
        } else if c0 == '+' {
            start = 1;
        }
    }
    if start >= n {
        return None;
    }
    let ghost body = s@.subrange(start as int, n as int);
    proof {
        if start == 0 {
            assert(body =~= s@);
        }
        assert(signed_int_of(s@) == digits_int_of(body, neg));
    }
    let mut acc: i64 = 0;
    let mut i: usize = start;
    while i < n
        invariant
            start <= i <= n,
            n == s@.len(),
            start < n,
            body == s@.subrange(start as int, n as int),
            signed_int_of(s@) == digits_int_of(body, neg),
            forall|k: int| start <= k < i ==> is_digit(s@[k]),
            0 <= acc <= 0x8000_0000,
            acc == digits_value(s@.subrange(start as int, i as int)),
        decreases n - i,
    {
        let c: char = s.get_char(i);
        let u: u32 = c as u32;
        if u < 48 || u > 57 {
            proof {
                assert(body[i - start] == s@[i as int]);
                assert(!is_digit(body[i - start]));
                assert(!all_digits(body));
            }
            return None;
        }
        let d: i64 = (u - 48) as i64;
        acc = acc * 10 + d;
        proof {
            let p = s@.subrange(start as int, i + 1 as int);
            assert(p.drop_last() =~= s@.subrange(start as int, i as int));
            assert(p.last() == s@[i as int]);
        }
        i += 1;
        if acc > 0x8000_0000 {
            proof {
                let pre = s@.subrange(start as int, i as int);
                if all_digits(body) {
                    assert(pre =~= body.subrange(0, i - start));
                    lemma_digits_value_prefix_le(body, i - start);
                    assert(digits_value(pre) == digits_value(body.subrange(0, i - start)));
                    assert(digits_value(body) > 0x8000_0000);
                }
            }
            return None;
        }
    }
    proof {
        assert(s@.subrange(start as int, n as int) =~= body);
        assert(all_digits(body));
        assert(acc == digits_value(body));
    }
    if neg {
        let v: i64 = -acc;
        Some(v as i32)
    } else {
        if acc > 0x7fff_ffff {
            return None;
        }
        Some(acc as i32)
    }
}

} // verus!
