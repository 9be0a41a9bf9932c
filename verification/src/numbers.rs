//! Reading integers from text the way `from_str_radix` of std's integer
//! types does: an optional sign, then at least one digit of the radix,
//! and nothing else; values out of the type's range are refused.

use vstd::prelude::*;

verus! {

/// The value of one digit in `radix` (2 to 36), if it is one.
pub open spec fn digit_value(c: char, radix: nat) -> Option<nat> {
    let v: int = if '0' <= c <= '9' {
        c as int - '0' as int
    } else if 'a' <= c <= 'z' {
        c as int - 'a' as int + 10
    } else if 'A' <= c <= 'Z' {
        c as int - 'A' as int + 10
    } else {
        radix as int
    };
    if v < radix {
        Some(v as nat)
    } else {
        None
    }
}

/// Every character of `s` is a digit in `radix`.
pub open spec fn all_digits(s: Seq<char>, radix: nat) -> bool {
    forall|i: int| 0 <= i < s.len() ==> (#[trigger] digit_value(s[i], radix)) is Some
}

/// The value of a run of digits.
pub open spec fn digits_value(s: Seq<char>, radix: nat) -> nat
    decreases s.len(),
{
    if s.len() == 0 {
        0
    } else {
        digits_value(s.drop_last(), radix) * radix + digit_value(s.last(), radix).unwrap_or(0)
    }
}

/// The digits after an optional leading `+`.
pub open spec fn unsigned_digits(s: Seq<char>) -> Seq<char> {
    if s.len() > 0 && s[0] == '+' {
        s.drop_first()
    } else {
        s
    }
}

/// What `from_str_radix` of an unsigned type with largest value `max`
/// gives for `s`.
pub open spec fn unsigned_of(s: Seq<char>, radix: nat, max: nat) -> Option<nat> {
    let d = unsigned_digits(s);
    if d.len() > 0 && all_digits(d, radix) && digits_value(d, radix) <= max {
        Some(digits_value(d, radix))
    } else {
        None
    }
}

/// What `from_str_radix` of a signed type with range `[-max - 1, max]`
/// gives for `s`: a leading `-` negates.
pub open spec fn signed_of(s: Seq<char>, radix: nat, max: nat) -> Option<int> {
    if s.len() > 0 && s[0] == '-' {
        let d = s.drop_first();
        if d.len() > 0 && all_digits(d, radix) && digits_value(d, radix) <= max + 1 {
            Some(-digits_value(d, radix))
        } else {
            None
        }
    } else {
        match unsigned_of(s, radix, max) {
            Some(v) => Some(v as int),
            None => None,
        }
    }
}

/// The digit value of `c` in `radix`.
pub fn digit_of_char(c: char, radix: u32) -> (r: Option<u32>)
    requires
        2 <= radix <= 36,
    ensures
        match digit_value(c, radix as nat) {
            Some(v) => r == Some(v as u32),
            None => r is None,
        },
{
    let v: u32 = if '0' <= c && c <= '9' {
        (c as u32) - ('0' as u32)
    } else if 'a' <= c && c <= 'z' {
        (c as u32) - ('a' as u32) + 10
    } else if 'A' <= c && c <= 'Z' {
        (c as u32) - ('A' as u32) + 10
    } else {
        radix
    };
    if v < radix {
        Some(v)
    } else {
        None
    }
}

proof fn lemma_digits_value_bound(s: Seq<char>, radix: nat, k: int)
    requires
        radix >= 2,
        0 <= k <= s.len(),
    ensures
        digits_value(s.take(k), radix) <= digits_value(s, radix) || !all_digits(s, radix),
    decreases s.len(),
{
    if k < s.len() && all_digits(s, radix) {
        assert(s.drop_last().take(k) =~= s.take(k));
        assert(all_digits(s.drop_last(), radix)) by {
            assert forall|i: int| 0 <= i < s.drop_last().len() implies (#[trigger] digit_value(
                s.drop_last()[i],
                radix,
            )) is Some by {
                assert(digit_value(s[i], radix) is Some);
            }
        }
        lemma_digits_value_bound(s.drop_last(), radix, k);
        let p = digits_value(s.drop_last(), radix);
        assert(p * radix >= p) by (nonlinear_arith)
            requires
                radix >= 2,
        ;
    } else if k == s.len() {
        assert(s.take(k) =~= s);
    }
}

/// Reads the digits of `v[lo..hi]` in `radix`, refusing a non-digit or a
/// value above `max`.
fn read_digits(v: &Vec<char>, lo: usize, hi: usize, radix: u32, max: u64) -> (r: Option<u64>)
    requires
        lo <= hi <= v.len(),
        2 <= radix <= 36,
    ensures
        ({
            let d = v@.subrange(lo as int, hi as int);
            if all_digits(d, radix as nat) && digits_value(d, radix as nat) <= max {
                r == Some(digits_value(d, radix as nat) as u64)
            } else {
                r is None
            }
        }),
{
    let ghost d = v@.subrange(lo as int, hi as int);
    let mut acc: u64 = 0;
    let mut i: usize = lo;
    while i < hi
        invariant
            lo <= i <= hi <= v.len(),
            2 <= radix <= 36,
            d == v@.subrange(lo as int, hi as int),
            all_digits(d.take(i - lo), radix as nat),
            acc == digits_value(d.take(i - lo), radix as nat),
            acc <= max,
        decreases hi - i,
    {
        let dv = digit_of_char(v[i], radix);
        let ghost pre = d.take(i - lo);
        let ghost next = d.take(i - lo + 1);
        assert(next.drop_last() =~= pre);
        assert(next.last() == v@[i as int]);
        match dv {
            None => {
                assert(!all_digits(d, radix as nat)) by {
                    assert(d[i - lo] == v@[i as int]);
                }
                return None;
            },
            Some(x) => {
                proof {
                    assert((acc as u128) * (radix as u128) <= 0xffff_ffff_ffff_ffff * 36) by (nonlinear_arith)
                        requires
                            acc <= 0xffff_ffff_ffff_ffffu64,
                            radix <= 36,
                    ;
                }
                let wide: u128 = (acc as u128) * (radix as u128) + (x as u128);
                assert(wide == digits_value(next, radix as nat));
                if wide > max as u128 {
                    proof {
                        assert(all_digits(next, radix as nat)) by {
                            assert forall|j: int| 0 <= j < next.len() implies (
                            #[trigger] digit_value(next[j], radix as nat)) is Some by {
                                if j < pre.len() {
                                    assert(next[j] == pre[j]);
                                }
                            }
                        }
                        lemma_digits_value_bound(d, radix as nat, i - lo + 1);
                    }
                    return None;
                }
                proof {
                    assert forall|j: int| 0 <= j < next.len() implies (#[trigger] digit_value(
                        next[j],
                        radix as nat,
                    )) is Some by {
                        if j < pre.len() {
                            assert(next[j] == pre[j]);
                        }
                    }
                }
                acc = wide as u64;
            },
        }
        i += 1;
    }
    assert(d.take(i - lo) =~= d);
    Some(acc)
}

/// `from_str_radix` for an unsigned type whose largest value is `max`.
pub fn parse_unsigned(s: &str, radix: u32, max: u64) -> (r: Option<u64>)
    requires
        2 <= radix <= 36,
    ensures
        match unsigned_of(s@, radix as nat, max as nat) {
            Some(v) => r == Some(v as u64),
            None => r is None,
        },
{
    let v = crate::text::chars_of(s);
    let start: usize = if v.len() > 0 && v[0] == '+' {
        1
    } else {
        0
    };
    proof {
        assert(unsigned_digits(s@) =~= v@.subrange(start as int, v.len() as int));
    }
    if start >= v.len() {
        return None;
    }
    read_digits(&v, start, v.len(), radix, max)
}

/// `from_str_radix` for a signed type whose largest value is `max`.
pub fn parse_signed(s: &str, radix: u32, max: u64) -> (r: Option<i128>)
    requires
        2 <= radix <= 36,
        max < u64::MAX,
    ensures
        match signed_of(s@, radix as nat, max as nat) {
            Some(v) => r == Some(v as i128),
            None => r is None,
        },
{
    let v = crate::text::chars_of(s);
    if v.len() > 0 && v[0] == '-' {
        assert(s@.drop_first() =~= v@.subrange(1, v.len() as int));
        if v.len() == 1 {
            return None;
        }
        match read_digits(&v, 1, v.len(), radix, max + 1) {
            Some(x) => Some(-(x as i128)),
            None => None,
        }
    } else {
        match parse_unsigned(s, radix, max) {
            Some(x) => Some(x as i128),
            None => None,
        }
    }
}

/// `u32::from_str`.
pub fn parse_u32(s: &str) -> (r: Option<u32>)
    ensures
        match unsigned_of(s@, 10, u32::MAX as nat) {
            Some(v) => r == Some(v as u32),
            None => r is None,
        },
{
    match parse_unsigned(s, 10, 0xffff_ffff) {
        Some(x) => Some(x as u32),
        None => None,
    }
}

/// `usize::from_str`.
pub fn parse_usize(s: &str) -> (r: Option<usize>)
    ensures
        match unsigned_of(s@, 10, usize::MAX as nat) {
            Some(v) => r == Some(v as usize),
            None => r is None,
        },
{
    match parse_unsigned(s, 10, usize::MAX as u64) {
        Some(x) => Some(x as usize),
        None => None,
    }
}

/// `i32::from_str`.
pub fn parse_i32(s: &str) -> (r: Option<i32>)
    ensures
        match signed_of(s@, 10, i32::MAX as nat) {
            Some(v) => r == Some(v as i32),
            None => r is None,
        },
{
    match parse_signed(s, 10, 0x7fff_ffff) {
        Some(x) => Some(x as i32),
        None => None,
    }
}


/// A numeral reads back as its number: the digits of `decimal(n)` are all
/// decimal digits and their value is `n`.
pub proof fn lemma_decimal_reads_back(n: nat)
    ensures
        crate::text::decimal(n).len() > 0,
        crate::text::decimal(n)[0] != '+',
        crate::text::decimal(n)[0] != '-',
        all_digits(crate::text::decimal(n), 10),
        digits_value(crate::text::decimal(n), 10) == n,
    decreases n,
{
    let d = crate::text::decimal(n);
    if n < 10 {
        assert(digit_value(crate::text::digit_char(n), 10) == Some(n));
        assert(d.drop_last() =~= Seq::<char>::empty());
        assert(digits_value(Seq::<char>::empty(), 10) == 0);
        assert(d.last() == crate::text::digit_char(n));
    } else {
        lemma_decimal_reads_back(n / 10);
        let p = crate::text::decimal(n / 10);
        assert(d.drop_last() =~= p);
        assert(d[0] == p[0]);
        assert(digit_value(crate::text::digit_char(n % 10), 10) == Some(n % 10));
        assert(d.last() == crate::text::digit_char(n % 10));
        assert(digits_value(d, 10) == digits_value(p, 10) * 10 + (n % 10));
        assert forall|i: int| 0 <= i < d.len() implies (#[trigger] digit_value(d[i], 10)) is Some by {
            if i < p.len() {
                assert(d[i] == p[i]);
            }
        }
    }
}

/// Reading the numeral of a number no larger than `max` gives the number.
pub proof fn law_unsigned_reads_decimal(n: nat, max: nat)
    requires
        n <= max,
    ensures
        unsigned_of(crate::text::decimal(n), 10, max) == Some(n),
{
    lemma_decimal_reads_back(n);
}

} // verus!
