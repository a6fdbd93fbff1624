use vstd::prelude::*;
use crate::name::chars_of;

verus! {

/// The boolean that `s` spells: exactly `true` or `false`.
pub open spec fn bool_of(s: Seq<char>) -> Option<bool> {
    if s == seq!['t', 'r', 'u', 'e'] {
        Some(true)
    } else if s == seq!['f', 'a', 'l', 's', 'e'] {
        Some(false)
    } else {
        None
    }
}

/// Whether `c` is an ASCII decimal digit.
pub open spec fn is_digit(c: char) -> bool {
    '0' <= c && c <= '9'
}

/// The value of a decimal digit.
pub open spec fn digit_val(c: char) -> int {
    (c as u32) as int - ('0' as u32) as int
}

/// The value of a string of decimal digits, most significant first.
pub open spec fn digits_value(ds: Seq<char>) -> int
    decreases ds.len(),
{
    if ds.len() == 0 {
        0
    } else {
        digits_value(ds.drop_last()) * 10 + digit_val(ds.last())
    }
}

/// Whether every character of `ds` is a decimal digit.
pub open spec fn all_digits(ds: Seq<char>) -> bool {
    forall|i: int| 0 <= i < ds.len() ==> is_digit(#[trigger] ds[i])
}

/// Where the digits of `s` start: after one optional `+` or `-`.
pub open spec fn digits_start(s: Seq<char>) -> int {
    if s.len() > 0 && (s[0] == '-' || s[0] == '+') {
        1
    } else {
        0
    }
}

/// The 32-bit signed integer that `s` spells: an optional sign, then one or
/// more decimal digits, with a value in range.
pub open spec fn int_of(s: Seq<char>) -> Option<i32> {
    let ds = s.subrange(digits_start(s), s.len() as int);
    let v = if s.len() > 0 && s[0] == '-' {
        -digits_value(ds)
    } else {
        digits_value(ds)
    };
    if ds.len() > 0 && all_digits(ds) && i32::MIN <= v <= i32::MAX {
        Some(v as i32)
    } else {
        None
    }
}

proof fn lemma_prefix_value(ds: Seq<char>, i: int)
    requires
        all_digits(ds),
        0 <= i <= ds.len(),
    ensures
        0 <= digits_value(ds.take(i)) <= digits_value(ds),
    decreases ds.len(),
{
    if ds.len() > 0 {
        let pre = ds.drop_last();
        assert(all_digits(pre)) by {
            assert forall|j: int| 0 <= j < pre.len() implies is_digit(#[trigger] pre[j]) by {
                assert(pre[j] == ds[j]);
            }
        }
        assert(is_digit(ds[ds.len() - 1]));
        if i == ds.len() {
            assert(ds.take(i) == ds);
            lemma_prefix_value(pre, pre.len() as int);
            assert(pre.take(pre.len() as int) == pre);
        } else {
            assert(ds.take(i) == pre.take(i));
            lemma_prefix_value(pre, i);
            lemma_prefix_value(pre, pre.len() as int);
            assert(pre.take(pre.len() as int) == pre);
        }
    }
}

/// Reads `s` as `true` or `false`.
pub fn parse_bool(s: &String) -> (r: Option<bool>)
    ensures
        r == bool_of(s@),
{
    let cs = chars_of(s.as_str());
    if cs.len() == 4 && cs[0] == 't' && cs[1] == 'r' && cs[2] == 'u' && cs[3] == 'e' {
        assert(cs@ =~= seq!['t', 'r', 'u', 'e']);
        Some(true)
    } else if cs.len() == 5 && cs[0] == 'f' && cs[1] == 'a' && cs[2] == 'l' && cs[3] == 's'
        && cs[4] == 'e' {
        assert(cs@ =~= seq!['f', 'a', 'l', 's', 'e']);
        Some(false)
    } else {
        assert(cs@ =~= seq!['t', 'r', 'u', 'e'] ==> cs.len() == 4 && cs[0] == 't' && cs[1] == 'r'
            && cs[2] == 'u' && cs[3] == 'e');
        assert(cs@ =~= seq!['f', 'a', 'l', 's', 'e'] ==> cs.len() == 5 && cs[0] == 'f' && cs[1]
            == 'a' && cs[2] == 'l' && cs[3] == 's' && cs[4] == 'e');
        None
    }
}

/// Reads `s` as a 32-bit signed decimal integer.
pub fn parse_int(s: &String) -> (r: Option<i32>)
    ensures
        r == int_of(s@),
{
    let cs = chars_of(s.as_str());
    let n = cs.len();
    let mut start: usize = 0;
    let mut neg = false;
    if n > 0 && (cs[0] == '-' || cs[0] == '+') {
        start = 1;
        neg = cs[0] == '-';
    }
    let ghost ds = cs@.subrange(start as int, n as int);
    assert(start == digits_start(s@));
    if start >= n {
        return None;
    }
    let mut acc: i64 = 0;
    let mut k: usize = start;
    while k < n
        invariant
            start <= k <= n,
            n == cs.len(),
            ds == cs@.subrange(start as int, n as int),
            cs@ == s@,
            start == digits_start(s@),
            neg == (s@.len() > 0 && s@[0] == '-'),
            0 <= acc <= 2147483648,
            acc == digits_value(ds.take(k - start)),
            forall|j: int| start <= j < k ==> is_digit(#[trigger] cs@[j]),
        decreases n - k,
    {
        let c = cs[k];
        if !('0' <= c && c <= '9') {
            assert(ds[k - start] == cs@[k as int]);
            assert(!is_digit(ds[k - start]));
            assert(!all_digits(ds));
            return None;
        }
        let ghost pre = ds.take(k - start);
        assert(ds.take(k + 1 - start).drop_last() == pre);
        assert(ds.take(k + 1 - start).last() == c);
        acc = acc * 10 + (c as u32 - '0' as u32) as i64;
        if acc > 2147483648 {
            proof {
                if all_digits(ds) {
                    lemma_prefix_value(ds, k + 1 - start);
                }
            }
            return None;
        }
        k = k + 1;
    }
    assert(ds.take(n - start) == ds);
    assert(all_digits(ds)) by {
        assert forall|j: int| 0 <= j < ds.len() implies is_digit(#[trigger] ds[j]) by {
            assert(ds[j] == cs@[start + j]);
        }
    }
    if neg {
        Some((-acc) as i32)
    } else if acc <= 2147483647 {
        Some(acc as i32)
    } else {
        None
    }
}

} // verus!
