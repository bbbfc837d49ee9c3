use vstd::prelude::*;

verus! {

use crate::field::Pos;
use vstd::string::StringSliceAdditionalSpecFns;

/// An ASCII whitespace byte.
pub open spec fn is_space(b: u8) -> bool {
    b == 32 || b == 9 || b == 10 || b == 11 || b == 12 || b == 13
}

/// `s` with its leading whitespace bytes removed.
pub open spec fn trim_front(s: Seq<u8>) -> Seq<u8>
    decreases s.len(),
{
    if s.len() > 0 && is_space(s[0]) {
        trim_front(s.drop_first())
    } else {
        s
    }
}

/// `s` with its trailing whitespace bytes removed.
pub open spec fn trim_back(s: Seq<u8>) -> Seq<u8>
    decreases s.len(),
{
    if s.len() > 0 && is_space(s.last()) {
        trim_back(s.drop_last())
    } else {
        s
    }
}

/// `s` with whitespace removed from both ends.
pub open spec fn trimmed(s: Seq<u8>) -> Seq<u8> {
    trim_back(trim_front(s))
}

/// An ASCII decimal digit.
pub open spec fn is_digit(b: u8) -> bool {
    48 <= b && b <= 57
}

/// A nonempty run of decimal digits.
pub open spec fn all_digits(s: Seq<u8>) -> bool {
    s.len() > 0 && forall|i: int| 0 <= i < s.len() ==> is_digit(#[trigger] s[i])
}

/// The number a digit string denotes.
pub open spec fn dec_value(s: Seq<u8>) -> int
    decreases s.len(),
{
    if s.len() == 0 {
        0
    } else {
        dec_value(s.drop_last()) * 10 + (s.last() - 48)
    }
}

/// A digit run denoting a number that fits in `usize`.
pub open spec fn valid_part(s: Seq<u8>) -> bool {
    all_digits(s) && dec_value(s) <= usize::MAX as int
}

/// How many comma bytes `s` holds.
pub open spec fn count_commas(s: Seq<u8>) -> int
    decreases s.len(),
{
    if s.len() == 0 {
        0
    } else {
        count_commas(s.drop_last()) + if s.last() == 44 {
            1int
        } else {
            0int
        }
    }
}

/// Index of the first comma in `s` (its length when there is none).
pub open spec fn first_comma(s: Seq<u8>) -> int
    decreases s.len(),
{
    if s.len() == 0 {
        0
    } else if s[0] == 44 {
        0
    } else {
        1 + first_comma(s.drop_first())
    }
}

/// What a trimmed byte string parses to: its two coordinates when it is
/// exactly one comma between two in-range digit runs, nothing otherwise.
pub open spec fn parse_pos(t: Seq<u8>) -> Option<(int, int)> {
    if count_commas(t) == 1 && valid_part(t.subrange(0, first_comma(t))) && valid_part(
        t.subrange(first_comma(t) + 1, t.len() as int),
    ) {
        Some(
            (
                dec_value(t.subrange(0, first_comma(t))),
                dec_value(t.subrange(first_comma(t) + 1, t.len() as int)),
            ),
        )
    } else {
        None
    }
}

proof fn lemma_trim_front_range(s: Seq<u8>, lo: int)
    requires
        0 <= lo <= s.len(),
        forall|j: int| 0 <= j < lo ==> is_space(#[trigger] s[j]),
        lo < s.len() ==> !is_space(s[lo]),
    ensures
        trim_front(s) == s.subrange(lo, s.len() as int),
    decreases lo,
{
    if lo == 0 {
        assert(trim_front(s) =~= s.subrange(0, s.len() as int));
    } else {
        let s1 = s.drop_first();
        assert forall|j: int| 0 <= j < lo - 1 implies is_space(#[trigger] s1[j]) by {
            assert(s1[j] == s[j + 1]);
        }
        lemma_trim_front_range(s1, lo - 1);
        assert(s1.subrange(lo - 1, s1.len() as int) =~= s.subrange(lo, s.len() as int));
    }
}

proof fn lemma_trim_back_range(s: Seq<u8>, hi: int)
    requires
        0 <= hi <= s.len(),
        forall|j: int| hi <= j < s.len() ==> is_space(#[trigger] s[j]),
        hi > 0 ==> !is_space(s[hi - 1]),
    ensures
        trim_back(s) == s.subrange(0, hi),
    decreases s.len() - hi,
{
    if hi == s.len() {
        assert(trim_back(s) =~= s.subrange(0, hi));
    } else {
        let s1 = s.drop_last();
        assert(is_space(s.last()));
        assert forall|j: int| hi <= j < s1.len() implies is_space(#[trigger] s1[j]) by {
            assert(s1[j] == s[j]);
        }
        lemma_trim_back_range(s1, hi);
        assert(s1.subrange(0, hi) =~= s.subrange(0, hi));
    }
}

proof fn lemma_dec_value_nonneg(s: Seq<u8>)
    requires
        forall|i: int| 0 <= i < s.len() ==> is_digit(#[trigger] s[i]),
    ensures
        dec_value(s) >= 0,
    decreases s.len(),
{
    if s.len() > 0 {
        let s1 = s.drop_last();
        assert forall|i: int| 0 <= i < s1.len() implies is_digit(#[trigger] s1[i]) by {
            assert(s1[i] == s[i]);
        }
        lemma_dec_value_nonneg(s1);
    }
}

proof fn lemma_dec_value_prefix_le(s: Seq<u8>, n: int)
    requires
        0 <= n <= s.len(),
        forall|i: int| 0 <= i < s.len() ==> is_digit(#[trigger] s[i]),
    ensures
        dec_value(s.subrange(0, n)) <= dec_value(s),
    decreases s.len() - n,
{
    if n == s.len() {
        assert(s.subrange(0, n) =~= s);
    } else {
        let p = s.subrange(0, n + 1);
        assert(p.drop_last() =~= s.subrange(0, n));
        assert forall|i: int| 0 <= i < s.subrange(0, n).len() implies is_digit(
            #[trigger] s.subrange(0, n)[i],
        ) by {
            assert(s.subrange(0, n)[i] == s[i]);
        }
        lemma_dec_value_nonneg(s.subrange(0, n));
        assert(dec_value(p) == dec_value(s.subrange(0, n)) * 10 + (p.last() - 48));
        lemma_dec_value_prefix_le(s, n + 1);
    }
}

proof fn lemma_first_comma_at(s: Seq<u8>, c: int)
    requires
        0 <= c < s.len(),
        s[c] == 44,
        forall|j: int| 0 <= j < c ==> s[j] != 44,
    ensures
        first_comma(s) == c,
    decreases c,
{
    if c > 0 {
        let s1 = s.drop_first();
        assert forall|j: int| 0 <= j < c - 1 implies s1[j] != 44 by {
            assert(s1[j] == s[j + 1]);
        }
        assert(s1[c - 1] == s[c]);
        lemma_first_comma_at(s1, c - 1);
    }
}

/// True when `b` is an ASCII whitespace byte.
fn byte_is_space(b: u8) -> (r: bool)
    ensures
        r == is_space(b),
{
    b == 32 || b == 9 || b == 10 || b == 11 || b == 12 || b == 13
}

/// Parses the decimal run `b[from..to]`; nothing when the range is not a
/// nonempty digit run or its value does not fit in `usize`.
fn parse_decimal(b: &[u8], from: usize, to: usize) -> (r: Option<usize>)
    requires
        from <= to,
        to <= b@.len(),
    ensures
        r is Some <==> valid_part(b@.subrange(from as int, to as int)),
        r matches Some(v) ==> v == dec_value(b@.subrange(from as int, to as int)),
{
    let ghost part = b@.subrange(from as int, to as int);
    if from == to {
        return None;
    }
    let mut acc: usize = 0;
    let mut i: usize = from;
    while i < to
        invariant
            from <= i <= to,
            to <= b@.len(),
            part == b@.subrange(from as int, to as int),
            forall|j: int| from <= j < i ==> is_digit(#[trigger] b@[j]),
            acc == dec_value(b@.subrange(from as int, i as int)),
        decreases to - i,
    {
        let c = b[i];
        if c < 48 || c > 57 {
            proof {
                assert(part.len() == to - from);
                assert(part[i as int - from] == b@[i as int]);
                assert(!all_digits(part));
            }
            return None;
        }
        let d = (c - 48) as usize;
        let ghost acc0 = acc;
        let ghost p = b@.subrange(from as int, i as int + 1);
        proof {
            assert(p.drop_last() =~= b@.subrange(from as int, i as int));
            assert(p.last() == b@[i as int]);
            assert(dec_value(p) == acc0 * 10 + d);
        }
        let next = match acc.checked_mul(10) {
            Some(t) => t.checked_add(d),
            None => None,
        };
        match next {
            Some(v) => {
                acc = v;
            },
            None => {
                proof {
                    if valid_part(part) {
                        assert(part.len() == to - from);
                        assert(part.subrange(0, i as int + 1 - from) =~= p) by {
                            assert forall|j: int|
                                0 <= j < i as int + 1 - from implies part.subrange(
                                0,
                                i as int + 1 - from,
                            )[j] == p[j] by {
                                assert(part[j] == b@[from + j]);
                                assert(p[j] == b@[from + j]);
                            }
                        }
                        lemma_dec_value_prefix_le(part, i as int + 1 - from);
                        assert(false);
                    }
                }
                return None;
            },
        }
        i += 1;
    }
    proof {
        assert(part =~= b@.subrange(from as int, i as int));
        assert(all_digits(part));
    }
    Some(acc)
}

/// Parses an `"x,y"` string into a position: optional surrounding
/// whitespace around two decimal coordinates separated by one comma.
/// The coordinates are not bounded here; placement validates them.
pub fn try_parse_pos(s: &str) -> (r: Result<Pos, ()>)
    ensures
        r matches Ok(p) ==> parse_pos(trimmed(s.spec_bytes())) == Some((p.0 as int, p.1 as int)),
        r is Err ==> parse_pos(trimmed(s.spec_bytes())) is None,
{
    let b = s.as_bytes();
    let n = b.len();
    let mut lo: usize = 0;
    while lo < n && byte_is_space(b[lo])
        invariant
            lo <= n,
            n == b@.len(),
            forall|j: int| 0 <= j < lo ==> is_space(#[trigger] b@[j]),
        decreases n - lo,
    {
        lo += 1;
    }
    let mut hi: usize = n;
    while hi > lo && byte_is_space(b[hi - 1])
        invariant
            lo <= hi <= n,
            n == b@.len(),
            forall|j: int| hi <= j < n ==> is_space(#[trigger] b@[j]),
        decreases hi,
    {
        hi -= 1;
    }
    let ghost t = trimmed(s.spec_bytes());
    proof {
        lemma_trim_front_range(b@, lo as int);
        let s1 = b@.subrange(lo as int, n as int);
        assert forall|j: int| hi - lo <= j < s1.len() implies is_space(#[trigger] s1[j]) by {
            assert(s1[j] == b@[lo + j]);
        }
        if hi > lo {
            assert(s1[hi - lo - 1] == b@[hi - 1]);
        }
        lemma_trim_back_range(s1, hi - lo);
        assert(s1.subrange(0, hi - lo) =~= b@.subrange(lo as int, hi as int));
        assert(t == b@.subrange(lo as int, hi as int));
    }
    let mut m: usize = lo;
    let mut commas: usize = 0;
    let mut cpos: usize = lo;
    while m < hi
        invariant
            lo <= m <= hi <= n,
            n == b@.len(),
            commas <= m - lo,
            commas == count_commas(b@.subrange(lo as int, m as int)),
            commas == 0 ==> forall|j: int| lo <= j < m ==> b@[j] != 44,
            commas >= 1 ==> lo <= cpos < m && b@[cpos as int] == 44 && forall|j: int|
                lo <= j < cpos ==> b@[j] != 44,
        decreases hi - m,
    {
        proof {
            assert(b@.subrange(lo as int, m as int + 1).drop_last() =~= b@.subrange(
                lo as int,
                m as int,
            ));
        }
        if b[m] == 44 {
            if commas == 0 {
                cpos = m;
            }
            commas += 1;
        }
        m += 1;
    }
    if commas != 1 {
        return Err(());
    }
    proof {
        assert(t[cpos - lo] == b@[cpos as int]);
        assert forall|j: int| 0 <= j < cpos - lo implies t[j] != 44 by {
            assert(t[j] == b@[lo + j]);
        }
        lemma_first_comma_at(t, cpos - lo);
        assert(t.subrange(0, cpos - lo) =~= b@.subrange(lo as int, cpos as int));
        assert(t.subrange(cpos - lo + 1, t.len() as int) =~= b@.subrange(
            cpos as int + 1,
            hi as int,
        ));
    }
    let p1 = parse_decimal(b, lo, cpos);
    let p2 = parse_decimal(b, cpos + 1, hi);
    match (p1, p2) {
        (Some(x), Some(y)) => Ok((x, y)),
        _ => Err(()),
    }
}

} // verus!
