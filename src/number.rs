use vstd::prelude::*;
use vstd::string::StrSliceExecFns;

verus! {

/// Every character of `s` is an ASCII decimal digit.
pub open spec fn all_digits(s: Seq<char>) -> bool {
    forall|i: int| 0 <= i < s.len() ==> '0' <= #[trigger] s[i] <= '9'
}

/// The number that the decimal digits `s` spell.
pub open spec fn digits_value(s: Seq<char>) -> int
    decreases s.len(),
{
    if s.len() == 0 {
        0
    } else {
        digits_value(s.drop_last()) * 10 + (s.last() as int - '0' as int)
    }
}

/// The integer that `s` spells as the integer types' `FromStr` reads it: an
/// optional sign (`-` only when `signed`), then one or more decimal digits.
pub open spec fn int_text_value(s: Seq<char>, signed: bool) -> Option<int> {
    if s.len() > 0 && (s[0] == '+' || (signed && s[0] == '-')) {
        let d = s.drop_first();
        if d.len() > 0 && all_digits(d) {
            Some(
                if s[0] == '-' {
                    -digits_value(d)
                } else {
                    digits_value(d)
                },
            )
        } else {
            None
        }
    } else if s.len() > 0 && all_digits(s) {
        Some(digits_value(s))
    } else {
        None
    }
}

/// The integer that `s` spells, when it lies in `lo..=hi`.
pub open spec fn int_in_range(s: Seq<char>, signed: bool, lo: int, hi: int) -> Option<int> {
    match int_text_value(s, signed) {
        Some(v) => if lo <= v <= hi {
            Some(v)
        } else {
            None
        },
        None => None,
    }
}

/// A prefix of a digit string never spells more than the whole string.
proof fn lemma_digits_prefix_le(s: Seq<char>, k: int)
    requires
        all_digits(s),
        0 <= k <= s.len(),
    ensures
        0 <= digits_value(s.subrange(0, k)) <= digits_value(s),
    decreases s.len(),
{
    if s.len() > 0 {
        let p = s.drop_last();
        assert(all_digits(p)) by {
            assert forall|i: int| 0 <= i < p.len() implies '0' <= #[trigger] p[i] <= '9' by {
                assert(p[i] == s[i]);
            }
        }
        if k == s.len() {
            assert(s.subrange(0, k) =~= s);
            lemma_digits_prefix_le(p, k - 1);
        } else {
            assert(s.subrange(0, k) =~= p.subrange(0, k));
            lemma_digits_prefix_le(p, k);
        }
        assert(s[s.len() - 1] == s.last());
    }
}

/// The largest magnitude that `parse_int` is asked to bound by.
pub const MAGNITUDE_LIMIT: i128 = 0x1_0000_0000_0000_0000;

/// Reads an integer in `lo..=hi` as the integer types' `FromStr` does.
pub fn parse_int(s: &str, signed: bool, lo: i128, hi: i128) -> (r: Option<i128>)
    requires
        -MAGNITUDE_LIMIT <= lo <= hi <= MAGNITUDE_LIMIT,
    ensures
        match r {
            Some(v) => int_in_range(s@, signed, lo as int, hi as int) == Some(v as int),
            None => int_in_range(s@, signed, lo as int, hi as int) is None,
        },
{
    let n = s.unicode_len();
    let signed_start = n > 0 && (s.get_char(0) == '+' || (signed && s.get_char(0) == '-'));
    let negative = signed_start && s.get_char(0) == '-';
    let start: usize = if signed_start {
        1
    } else {
        0
    };
    let ghost d = s@.subrange(start as int, n as int);
    if signed_start {
        assert(d =~= s@.drop_first());
    } else {
        assert(d =~= s@);
    }
    if start >= n {
        return None;
    }
    let mut acc: u128 = 0;
    let mut i: usize = start;
    while i < n
        invariant
            n == s@.len(),
            start <= i <= n,
            d == s@.subrange(start as int, n as int),
            signed_start == (s@.len() > 0 && (s@[0] == '+' || (signed && s@[0] == '-'))),
            signed_start ==> d == s@.drop_first(),
            !signed_start ==> d == s@,
            all_digits(s@.subrange(start as int, i as int)),
            acc as int == digits_value(s@.subrange(start as int, i as int)),
            acc <= MAGNITUDE_LIMIT,
            -MAGNITUDE_LIMIT <= lo <= hi <= MAGNITUDE_LIMIT,
        decreases n - i,
    {
        let c = s.get_char(i);
        if c < '0' || c > '9' {
            assert(d[i - start] == c);
            return None;
        }
        let next = acc * 10 + (c as u32 - '0' as u32) as u128;
        let ghost p = s@.subrange(start as int, i as int + 1);
        assert(p.drop_last() =~= s@.subrange(start as int, i as int));
        assert(p.last() == c);
        assert(all_digits(p)) by {
            assert forall|k: int| 0 <= k < p.len() implies '0' <= #[trigger] p[k] <= '9' by {
                if k < p.len() - 1 {
                    assert(p[k] == s@.subrange(start as int, i as int)[k]);
                }
            }
        }
        assert(digits_value(p) == next as int);
        if next > MAGNITUDE_LIMIT as u128 {
            proof {
                if all_digits(d) {
                    assert(d.subrange(0, i - start + 1) =~= p);
                    lemma_digits_prefix_le(d, i - start + 1);
                    assert(digits_value(d) > MAGNITUDE_LIMIT);
                }
            }
            return None;
        }
        acc = next;
        i += 1;
    }
    assert(s@.subrange(start as int, i as int) =~= d);
    let v: i128 = if negative {
        -(acc as i128)
    } else {
        acc as i128
    };
    if lo <= v && v <= hi {
        Some(v)
    } else {
        None
    }
}

} // verus!
