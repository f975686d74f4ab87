//! Decimal rendering and strict decimal parsing of the integers that
//! appear in a token's payload.
//!
//! Rendering is canonical: no sign for non-negative values, no leading
//! zeros, `-` followed by the magnitude for negative values. Parsing
//! accepts exactly the canonical forms and nothing else, so that the two
//! directions invert each other.

use vstd::prelude::*;

verus! {

/// ASCII code of `'0'`.
pub const DIGIT_ZERO: u8 = 48;

/// ASCII code of `'-'`.
pub const MINUS: u8 = 45;

/// Decimal digits of `n`, most significant first.
pub open spec fn spec_u64_digits(n: nat) -> Seq<u8>
    decreases n,
{
    if n < 10 {
        seq![(48 + n) as u8]
    } else {
        spec_u64_digits(n / 10) + seq![(48 + n % 10) as u8]
    }
}

/// Canonical decimal digits of a signed value.
pub open spec fn spec_i64_digits(n: int) -> Seq<u8> {
    if n >= 0 {
        spec_u64_digits(n as nat)
    } else {
        seq![MINUS] + spec_u64_digits((-n) as nat)
    }
}

pub open spec fn spec_all_digits(s: Seq<u8>) -> bool {
    forall|i: int| 0 <= i < s.len() ==> 48 <= #[trigger] s[i] <= 57
}

/// The numeric value of a digit string (meaningful under `spec_all_digits`).
pub open spec fn spec_dec_val(s: Seq<u8>) -> nat
    decreases s.len(),
{
    if s.len() == 0 {
        0
    } else {
        spec_dec_val(s.drop_last()) * 10 + (s.last() - 48) as nat
    }
}

/// A canonical unsigned rendering: at least one digit, no leading zero.
pub open spec fn spec_canon_u64(s: Seq<u8>) -> bool {
    spec_all_digits(s) && s.len() >= 1 && (s[0] != 48 || s.len() == 1)
}

/// A canonical signed rendering: an unsigned one, or `-` before a nonzero
/// unsigned one.
pub open spec fn spec_canon_i64(s: Seq<u8>) -> bool {
    if s.len() >= 1 && s[0] == MINUS {
        spec_canon_u64(s.skip(1)) && spec_dec_val(s.skip(1)) > 0
    } else {
        spec_canon_u64(s)
    }
}

/// The signed value of a canonical signed rendering.
pub open spec fn spec_sig_val(s: Seq<u8>) -> int {
    if s.len() >= 1 && s[0] == MINUS {
        -(spec_dec_val(s.skip(1)) as int)
    } else {
        spec_dec_val(s) as int
    }
}

pub open spec fn pow10(k: nat) -> nat
    decreases k,
{
    if k == 0 {
        1
    } else {
        10 * pow10((k - 1) as nat)
    }
}

/// Rendering an unsigned value gives a canonical digit string that parses
/// back to the same value.
pub proof fn lemma_u64_digits_roundtrip(n: nat)
    ensures
        spec_canon_u64(spec_u64_digits(n)),
        spec_dec_val(spec_u64_digits(n)) == n,
        n > 0 ==> spec_u64_digits(n)[0] != 48,
    decreases n,
{
    if n < 10 {
        let d = spec_u64_digits(n);
        assert(d =~= seq![(48 + n) as u8]);
        assert((48 + n) as u8 == 48 + n);
        assert(d.drop_last() =~= Seq::<u8>::empty());
        assert(spec_dec_val(d) == spec_dec_val(Seq::<u8>::empty()) * 10 + (d.last() - 48) as nat);
    } else {
        lemma_u64_digits_roundtrip(n / 10);
        let p = spec_u64_digits(n / 10);
        let d = spec_u64_digits(n);
        assert(d =~= p + seq![(48 + n % 10) as u8]);
        assert(d.drop_last() =~= p);
        assert(d.last() == (48 + n % 10) as u8);
        assert((48 + n % 10) as u8 == 48 + n % 10);
        assert(spec_dec_val(d) == spec_dec_val(p) * 10 + n % 10);
        assert(n / 10 * 10 + n % 10 == n) by (nonlinear_arith);
        assert(n / 10 > 0);
        assert(d[0] == p[0]);
    }
}

/// A digit string of length `k` that does not start with `0` denotes a
/// value of at least `10^(k-1)`.
pub proof fn lemma_canon_lower(s: Seq<u8>)
    requires
        spec_all_digits(s),
        s.len() >= 1,
        s[0] != 48,
    ensures
        spec_dec_val(s) >= pow10((s.len() - 1) as nat),
    decreases s.len(),
{
    if s.len() == 1 {
        assert(48 <= s[0] <= 57);
    } else {
        let p = s.drop_last();
        assert(p[0] == s[0]);
        lemma_canon_lower(p);
        assert(spec_dec_val(p) >= pow10((s.len() - 2) as nat));
        assert(spec_dec_val(p) * 10 >= pow10((s.len() - 2) as nat) * 10);
    }
}

pub proof fn lemma_pow10_20()
    ensures
        pow10(20) > u64::MAX,
        pow10(20) < u128::MAX / 16,
{
    reveal_with_fuel(pow10, 21);
}

/// Render `n` in decimal, most significant digit first.
pub fn u64_to_dec(n: u64) -> (r: Vec<u8>)
    ensures
        r@ == spec_u64_digits(n as nat),
    decreases n,
{
    if n < 10 {
        let mut v: Vec<u8> = Vec::new();
        v.push(48 + n as u8);
        proof {
            assert(v@ =~= spec_u64_digits(n as nat));
        }
        v
    } else {
        let mut v = u64_to_dec(n / 10);
        v.push(48 + (n % 10) as u8);
        proof {
            assert(v@ =~= spec_u64_digits(n as nat));
        }
        v
    }
}

/// Render a signed value in decimal: `-` before the magnitude if negative.
pub fn i64_to_dec(n: i64) -> (r: Vec<u8>)
    ensures
        r@ == spec_i64_digits(n as int),
{
    if n >= 0 {
        u64_to_dec(n as u64)
    } else {
        let mag: u64 = if n == i64::MIN {
            9223372036854775808u64
        } else {
            (-n) as u64
        };
        let mut digits = u64_to_dec(mag);
        let mut v: Vec<u8> = Vec::new();
        v.push(MINUS);
        v.append(&mut digits);
        proof {
            assert(v@ =~= spec_i64_digits(n as int));
        }
        v
    }
}

/// Parse the byte range `[from, to)` of `v` as a canonical unsigned
/// decimal that fits in a `u64`; reject everything else.
pub fn parse_u64_digits(v: &Vec<u8>, from: usize, to: usize) -> (r: Option<u64>)
    requires
        from <= to <= v@.len(),
    ensures
        ({
            let s = v@.subrange(from as int, to as int);
            match r {
                Some(n) => spec_canon_u64(s) && spec_dec_val(s) == n,
                None => !(spec_canon_u64(s) && spec_dec_val(s) <= u64::MAX),
            }
        }),
{
    let ghost s = v@.subrange(from as int, to as int);
    if to == from {
        return None;
    }
    if v[from] == 48 && to - from > 1 {
        return None;
    }
    if to - from > 20 {
        proof {
            if spec_canon_u64(s) {
                lemma_canon_lower(s);
                lemma_pow10_20();
                assert(pow10((s.len() - 1) as nat) >= pow10(20) * 1) by {
                    lemma_pow10_monotone(20, (s.len() - 1) as nat);
                }
            }
        }
        return None;
    }
    let mut acc: u128 = 0;
    let mut i: usize = from;
    proof {
        lemma_pow10_20();
    }
    while i < to
        invariant
            from <= i <= to <= v@.len(),
            to - from <= 20,
            spec_all_digits(v@.subrange(from as int, i as int)),
            acc == spec_dec_val(v@.subrange(from as int, i as int)),
            acc < pow10((i - from) as nat),
            pow10(20) < u128::MAX / 16,
            pow10((i - from) as nat) <= pow10(20),
        decreases to - i,
    {
        let d = v[i];
        if d < 48 || d > 57 {
            proof {
                assert(v@.subrange(from as int, to as int)[i - from] == d);
            }
            return None;
        }
        proof {
            assert(v@.subrange(from as int, i + 1).drop_last() =~= v@.subrange(
                from as int,
                i as int,
            ));
            assert(v@.subrange(from as int, i + 1).last() == d);
            lemma_pow10_monotone((i + 1 - from) as nat, 20);
        }
        acc = acc * 10 + (d - 48) as u128;
        i += 1;
    }
    proof {
        assert(v@.subrange(from as int, to as int) =~= s);
    }
    if acc > u64::MAX as u128 {
        return None;
    }
    Some(acc as u64)
}

pub proof fn lemma_pow10_monotone(a: nat, b: nat)
    requires
        a <= b,
    ensures
        pow10(a) <= pow10(b),
    decreases b,
{
    if a < b {
        lemma_pow10_monotone(a, (b - 1) as nat);
        assert(pow10(b) == 10 * pow10((b - 1) as nat));
    }
}

/// Parse the byte range `[from, to)` of `v` as a canonical signed decimal
/// that fits in an `i64`; reject everything else.
pub fn parse_i64_digits(v: &Vec<u8>, from: usize, to: usize) -> (r: Option<i64>)
    requires
        from <= to <= v@.len(),
    ensures
        ({
            let s = v@.subrange(from as int, to as int);
            match r {
                Some(n) => spec_canon_i64(s) && spec_sig_val(s) == n,
                None => !(spec_canon_i64(s) && i64::MIN <= spec_sig_val(s) <= i64::MAX),
            }
        }),
{
    let ghost s = v@.subrange(from as int, to as int);
    if to == from {
        return None;
    }
    if v[from] == MINUS {
        proof {
            assert(s[0] == MINUS);
            assert(s.skip(1) =~= v@.subrange(from + 1, to as int));
        }
        match parse_u64_digits(v, from + 1, to) {
            Some(mag) => {
                if mag == 0 {
                    return None;
                }
                if mag > 9223372036854775808u64 {
                    proof {
                        if spec_canon_i64(s) {
                            assert(spec_sig_val(s) < i64::MIN);
                        }
                    }
                    return None;
                }
                let r: i64 = if mag == 9223372036854775808u64 {
                    i64::MIN
                } else {
                    -(mag as i64)
                };
                Some(r)
            },
            None => {
                proof {
                    if spec_canon_i64(s) && i64::MIN <= spec_sig_val(s) {
                        assert(spec_canon_u64(s.skip(1)));
                        assert(spec_dec_val(s.skip(1)) <= 9223372036854775808u64);
                    }
                }
                None
            },
        }
    } else {
        proof {
            assert(s[0] != MINUS);
        }
        match parse_u64_digits(v, from, to) {
            Some(n) => {
                if n > i64::MAX as u64 {
                    return None;
                }
                Some(n as i64)
            },
            None => None,
        }
    }
}

/// Rendering a signed value gives a canonical string that parses back to
/// the same value.
pub proof fn lemma_i64_digits_roundtrip(n: int)
    requires
        i64::MIN <= n <= i64::MAX,
    ensures
        spec_canon_i64(spec_i64_digits(n)),
        spec_sig_val(spec_i64_digits(n)) == n,
{
    if n >= 0 {
        lemma_u64_digits_roundtrip(n as nat);
        let d = spec_i64_digits(n);
        assert(d[0] != MINUS);
    } else {
        lemma_u64_digits_roundtrip((-n) as nat);
        let m = spec_u64_digits((-n) as nat);
        let d = spec_i64_digits(n);
        assert(d[0] == MINUS);
        assert(d.skip(1) =~= m);
    }
}

} // verus!
