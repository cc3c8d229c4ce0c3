//! Decimal numerals as they appear on the wire: parsing a byte string of
//! ASCII digits into a machine integer, and printing one back.

use vstd::prelude::*;

verus! {

pub open spec fn is_digit(c: u8) -> bool {
    48 <= c <= 57
}

pub open spec fn all_digits(s: Seq<u8>) -> bool {
    forall|i: int| 0 <= i < s.len() ==> is_digit(s[i])
}

/// Numeric value of a digit string (most significant digit first).
pub open spec fn dec_value(s: Seq<u8>) -> int
    decreases s.len(),
{
    if s.len() == 0 {
        0
    } else {
        dec_value(s.drop_last()) * 10 + s.last() - 48
    }
}

/// The string is a well-formed numeral whose value fits in a `usize`.
pub open spec fn dec_parses(s: Seq<u8>) -> bool {
    s.len() > 0 && all_digits(s) && dec_value(s) <= usize::MAX
}

pub proof fn lemma_dec_value_nonneg(s: Seq<u8>)
    requires
        all_digits(s),
    ensures
        dec_value(s) >= 0,
    decreases s.len(),
{
    if s.len() > 0 {
        assert(all_digits(s.drop_last()));
        lemma_dec_value_nonneg(s.drop_last());
    }
}

/// A digit-string prefix never exceeds the whole string in value.
pub proof fn lemma_dec_value_prefix(s: Seq<u8>, i: int)
    requires
        all_digits(s),
        0 <= i <= s.len(),
    ensures
        dec_value(s.take(i)) <= dec_value(s),
    decreases s.len() - i,
{
    if i == s.len() {
        assert(s.take(i) =~= s);
    } else {
        lemma_dec_value_prefix(s, i + 1);
        let t = s.take(i + 1);
        assert(t.drop_last() =~= s.take(i));
        assert(all_digits(s.take(i)));
        lemma_dec_value_nonneg(s.take(i));
        assert(dec_value(t) == dec_value(s.take(i)) * 10 + t.last() - 48);
        assert(is_digit(s[i]));
        assert(dec_value(s.take(i)) <= dec_value(s.take(i)) * 10);
    }
}

/// Parse an ASCII decimal numeral; rejects empty strings, non-digits and
/// values that do not fit.
pub fn parse_usize(s: &[u8]) -> (r: Option<usize>)
    ensures
        match r {
            Some(n) => dec_parses(s@) && n == dec_value(s@),
            None => !dec_parses(s@),
        },
{
    if s.len() == 0 {
        return None;
    }
    let mut acc: usize = 0;
    let mut i: usize = 0;
    while i < s.len()
        invariant
            i <= s@.len(),
            s@.len() > 0,
            all_digits(s@.take(i as int)),
            acc == dec_value(s@.take(i as int)),
        decreases s@.len() - i,
    {
        let c = s[i];
        if c < 48 || c > 57 {
            assert(!all_digits(s@));
            return None;
        }
        let d = (c - 48) as usize;
        let ghost pre = s@.take(i as int);
        let ghost cur = s@.take(i + 1);
        proof {
            assert(cur.drop_last() =~= pre);
            assert(cur.last() == s@[i as int]);
        }
        let step = match acc.checked_mul(10) {
            Some(t) => t.checked_add(d),
            None => None,
        };
        match step {
            Some(v) => {
                acc = v;
            }
            None => {
                proof {
                    assert(dec_value(cur) > usize::MAX);
                    if all_digits(s@) {
                        lemma_dec_value_prefix(s@, i + 1);
                    }
                }
                return None;
            }
        }
        i = i + 1;
    }
    proof {
        assert(s@.take(s@.len() as int) =~= s@);
    }
    Some(acc)
}

/// Decimal digit string of `n`, most significant digit first, no leading
/// zeros (except for `n == 0` itself).
pub open spec fn dec_digits(n: nat) -> Seq<u8>
    decreases n,
{
    if n < 10 {
        seq![(48 + n) as u8]
    } else {
        dec_digits(n / 10).push((48 + n % 10) as u8)
    }
}

/// The decimal digits of `n` as characters.
pub open spec fn dec_chars(n: nat) -> Seq<char> {
    dec_digits(n).map(|i: int, b: u8| b as char)
}

pub proof fn lemma_dec_digits_all_digits(n: nat)
    ensures
        all_digits(dec_digits(n)),
        dec_digits(n).len() >= 1,
    decreases n,
{
    if n >= 10 {
        lemma_dec_digits_all_digits(n / 10);
    }
}

/// Print `n` as ASCII decimal digits.
pub fn usize_to_dec(n: usize) -> (r: Vec<u8>)
    ensures
        r@ == dec_digits(n as nat),
{
    if n == 0 {
        let mut out: Vec<u8> = Vec::new();
        out.push(48);
        proof {
            assert(out@ =~= dec_digits(0));
        }
        return out;
    }
    let mut digits: Vec<u8> = Vec::new();
    let mut m: usize = n;
    loop
        invariant
            m > 0,
            dec_digits(n as nat) =~= dec_digits(m as nat) + digits@,
        decreases m,
    {
        let d = (m % 10) as u8;
        let m2 = m / 10;
        let ghost before = digits@;
        digits.insert(0, 48 + d);
        proof {
            assert(digits@ =~= seq![(48 + d) as u8] + before);
            if m2 > 0 {
                assert(m >= 10);
                assert(dec_digits(m as nat) =~= dec_digits((m / 10) as nat).push(
                    (48 + m % 10) as u8,
                ));
                assert(dec_digits(m as nat) + before =~= dec_digits(m2 as nat) + digits@);
            } else {
                assert(m < 10);
                assert(dec_digits(m as nat) =~= seq![(48 + m) as u8]);
                assert(dec_digits(m as nat) + before =~= digits@);
            }
        }
        if m2 == 0 {
            return digits;
        }
        m = m2;
    }
}

/// Print `n` (a subscription counter) as ASCII decimal digits.
pub fn u64_to_dec(n: u64) -> (r: Vec<u8>)
    ensures
        r@ == dec_digits(n as nat),
{
    if n == 0 {
        let mut out: Vec<u8> = Vec::new();
        out.push(48);
        proof {
            assert(out@ =~= dec_digits(0));
        }
        return out;
    }
    let mut digits: Vec<u8> = Vec::new();
    let mut m: u64 = n;
    loop
        invariant
            m > 0,
            dec_digits(n as nat) =~= dec_digits(m as nat) + digits@,
        decreases m,
    {
        let d = (m % 10) as u8;
        let m2 = m / 10;
        let ghost before = digits@;
        digits.insert(0, 48 + d);
        proof {
            assert(digits@ =~= seq![(48 + d) as u8] + before);
            if m2 > 0 {
                assert(m >= 10);
                assert(dec_digits(m as nat) =~= dec_digits((m / 10) as nat).push(
                    (48 + m % 10) as u8,
                ));
                assert(dec_digits(m as nat) + before =~= dec_digits(m2 as nat) + digits@);
            } else {
                assert(m < 10);
                assert(dec_digits(m as nat) =~= seq![(48 + m) as u8]);
                assert(dec_digits(m as nat) + before =~= digits@);
            }
        }
        if m2 == 0 {
            return digits;
        }
        m = m2;
    }
}

} // verus!
