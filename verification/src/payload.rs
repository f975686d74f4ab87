//! The token payload: one JSON object carrying the subject id, the expiry
//! and the administrator flag, rendered canonically and parsed strictly.
//!
//! The rendered shape is `{"uid":U,"exp":E,"is_admin":A}` with canonical
//! decimal fields and no spaces; the parser accepts exactly the strings
//! the renderer produces (`lemma_claims_json_roundtrip`).

use vstd::prelude::*;
use crate::digits::{
    MINUS, i64_to_dec, lemma_i64_digits_roundtrip, lemma_u64_digits_roundtrip, parse_i64_digits,
    parse_u64_digits, spec_canon_i64, spec_canon_u64, spec_dec_val, spec_i64_digits, spec_sig_val,
    spec_u64_digits, u64_to_dec,
};
use crate::types::Claims;

verus! {

/// ASCII code of `','`.
pub const COMMA: u8 = 44;

/// ASCII code of `'}'`.
pub const RBRACE: u8 = 125;

/// The bytes of `{"uid":`.
pub open spec fn uid_prefix() -> Seq<u8> {
    seq![123u8, 34, 117, 105, 100, 34, 58]
}

/// The bytes of `,"exp":`.
pub open spec fn exp_prefix() -> Seq<u8> {
    seq![44u8, 34, 101, 120, 112, 34, 58]
}

/// The bytes of `,"is_admin":`.
pub open spec fn adm_prefix() -> Seq<u8> {
    seq![44u8, 34, 105, 115, 95, 97, 100, 109, 105, 110, 34, 58]
}

/// The canonical payload for a subject id, an expiry and an admin flag.
pub open spec fn spec_claims_json(uid: int, exp: nat, adm: int) -> Seq<u8> {
    uid_prefix() + spec_i64_digits(uid) + exp_prefix() + spec_u64_digits(exp) + adm_prefix()
        + spec_i64_digits(adm) + seq![RBRACE]
}

/// The smallest index at or after `from` holding byte `b`.
pub open spec fn spec_find(v: Seq<u8>, from: int, b: u8) -> Option<int>
    decreases v.len() - from,
{
    if from < 0 || from >= v.len() {
        None
    } else if v[from] == b {
        Some(from)
    } else {
        spec_find(v, from + 1, b)
    }
}

pub proof fn lemma_find_char(v: Seq<u8>, from: int, b: u8)
    requires
        0 <= from <= v.len(),
    ensures
        match spec_find(v, from, b) {
            Some(k) => from <= k < v.len() && v[k] == b && forall|j: int|
                from <= j < k ==> v[j] != b,
            None => forall|j: int| from <= j < v.len() ==> v[j] != b,
        },
    decreases v.len() - from,
{
    if from < v.len() && v[from] != b {
        lemma_find_char(v, from + 1, b);
    }
}

/// If `k` is an occurrence of `b` and nothing before it is, the search
/// finds exactly `k`.
pub proof fn lemma_find_exact(v: Seq<u8>, from: int, b: u8, k: int)
    requires
        0 <= from <= k < v.len(),
        v[k] == b,
        forall|j: int| from <= j < k ==> v[j] != b,
    ensures
        spec_find(v, from, b) == Some(k),
{
    lemma_find_char(v, from, b);
    match spec_find(v, from, b) {
        Some(k2) => {
            if k2 < k {
                assert(v[k2] != b);
            }
            if k < k2 {
                assert(v[k] != b);
            }
        },
        None => {
            assert(v[k] != b);
        },
    }
}

/// Strict parse of a payload: the three fields of the canonical shape, or
/// nothing for every other byte string.
pub open spec fn spec_parse_claims(v: Seq<u8>) -> Option<(int, int, int)> {
    if v.len() < 7 || v.subrange(0, 7) != uid_prefix() {
        None
    } else {
        match spec_find(v, 7, COMMA) {
            None => None,
            Some(p1) => {
                if p1 + 7 > v.len() || v.subrange(p1, p1 + 7) != exp_prefix() {
                    None
                } else {
                    match spec_find(v, p1 + 7, COMMA) {
                        None => None,
                        Some(p2) => {
                            if p2 + 13 > v.len() || v.subrange(p2, p2 + 12) != adm_prefix() || v[
                                v.len() - 1
                            ] != RBRACE {
                                None
                            } else {
                                let us = v.subrange(7, p1);
                                let es = v.subrange(p1 + 7, p2);
                                let bs = v.subrange(p2 + 12, v.len() - 1);
                                if spec_canon_i64(us) && i64::MIN <= spec_sig_val(us) <= i64::MAX
                                    && spec_canon_u64(es) && spec_dec_val(es) <= u64::MAX
                                    && spec_canon_i64(bs) && i64::MIN <= spec_sig_val(bs)
                                    <= i64::MAX {
                                    Some(
                                        (spec_sig_val(us), spec_dec_val(es) as int, spec_sig_val(
                                            bs,
                                        )),
                                    )
                                } else {
                                    None
                                }
                            }
                        },
                    }
                }
            }
        }
    }
}

fn uid_prefix_vec() -> (r: Vec<u8>)
    ensures
        r@ == uid_prefix(),
{
    let mut v: Vec<u8> = Vec::new();
    v.push(123);
    v.push(34);
    v.push(117);
    v.push(105);
    v.push(100);
    v.push(34);
    v.push(58);
    proof {
        assert(v@ =~= uid_prefix());
    }
    v
}

fn exp_prefix_vec() -> (r: Vec<u8>)
    ensures
        r@ == exp_prefix(),
{
    let mut v: Vec<u8> = Vec::new();
    v.push(44);
    v.push(34);
    v.push(101);
    v.push(120);
    v.push(112);
    v.push(34);
    v.push(58);
    proof {
        assert(v@ =~= exp_prefix());
    }
    v
}

fn adm_prefix_vec() -> (r: Vec<u8>)
    ensures
        r@ == adm_prefix(),
{
    let mut v: Vec<u8> = Vec::new();
    v.push(44);
    v.push(34);
    v.push(105);
    v.push(115);
    v.push(95);
    v.push(97);
    v.push(100);
    v.push(109);
    v.push(105);
    v.push(110);
    v.push(34);
    v.push(58);
    proof {
        assert(v@ =~= adm_prefix());
    }
    v
}

/// Whether `pat` occurs in `v` starting at `from`.
fn range_matches(v: &Vec<u8>, from: usize, pat: &Vec<u8>) -> (r: bool)
    requires
        from <= v@.len(),
    ensures
        r == (from + pat@.len() <= v@.len() && v@.subrange(
            from as int,
            from + pat@.len(),
        ) == pat@),
{
    let m = pat.len();
    let n = v.len();
    if n - from < m {
        return false;
    }
    let mut i: usize = 0;
    while i < m
        invariant
            i <= m,
            m == pat@.len(),
            n == v@.len(),
            from + m <= n,
            forall|j: int| 0 <= j < i ==> v@[from + j] == pat@[j],
        decreases m - i,
    {
        if v[from + i] != pat[i] {
            proof {
                assert(v@.subrange(from as int, from + pat@.len())[i as int] != pat@[i as int]);
            }
            return false;
        }
        i += 1;
    }
    proof {
        assert(v@.subrange(from as int, from + pat@.len()) =~= pat@);
    }
    true
}

/// The smallest index at or after `from` holding byte `b`, executably.
pub fn find_byte(v: &Vec<u8>, from: usize, b: u8) -> (r: Option<usize>)
    requires
        from <= v@.len(),
    ensures
        match r {
            Some(k) => from <= k < v@.len() && spec_find(v@, from as int, b) == Some(k as int),
            None => spec_find(v@, from as int, b) is None,
        },
{
    let n = v.len();
    let mut i: usize = from;
    while i < n
        invariant
            from <= i <= n,
            n == v@.len(),
            spec_find(v@, from as int, b) == spec_find(v@, i as int, b),
        decreases n - i,
    {
        if v[i] == b {
            return Some(i);
        }
        i += 1;
    }
    None
}

/// Render the payload for `c`.
pub fn claims_json(c: &Claims) -> (r: Vec<u8>)
    ensures
        r@ == spec_claims_json(c.uid as int, c.exp as nat, c.is_admin as int),
{
    let mut v = uid_prefix_vec();
    let mut part = i64_to_dec(c.uid);
    v.append(&mut part);
    let mut part = exp_prefix_vec();
    v.append(&mut part);
    let mut part = u64_to_dec(c.exp);
    v.append(&mut part);
    let mut part = adm_prefix_vec();
    v.append(&mut part);
    let mut part = i64_to_dec(c.is_admin);
    v.append(&mut part);
    v.push(RBRACE);
    proof {
        assert(v@ =~= spec_claims_json(c.uid as int, c.exp as nat, c.is_admin as int));
    }
    v
}

/// Parse a payload strictly; exactly the canonical strings are accepted.
pub fn parse_claims(v: &Vec<u8>) -> (r: Option<Claims>)
    ensures
        match r {
            Some(c) => spec_parse_claims(v@) == Some(
                (c.uid as int, c.exp as int, c.is_admin as int),
            ),
            None => spec_parse_claims(v@) is None,
        },
{
    let n = v.len();
    let up = uid_prefix_vec();
    proof {
        assert(up@.len() == 7);
    }
    if !range_matches(v, 0, &up) {
        return None;
    }
    let p1 = match find_byte(v, 7, COMMA) {
        Some(k) => k,
        None => {
            return None;
        },
    };
    let ep = exp_prefix_vec();
    proof {
        assert(ep@.len() == 7);
    }
    if !range_matches(v, p1, &ep) {
        return None;
    }
    let p2 = match find_byte(v, p1 + 7, COMMA) {
        Some(k) => k,
        None => {
            return None;
        },
    };
    let ap = adm_prefix_vec();
    proof {
        assert(ap@.len() == 12);
    }
    if !range_matches(v, p2, &ap) {
        return None;
    }
    if n - p2 < 13 {
        return None;
    }
    if v[n - 1] != RBRACE {
        return None;
    }
    let uid = match parse_i64_digits(v, 7, p1) {
        Some(x) => x,
        None => {
            return None;
        },
    };
    let exp = match parse_u64_digits(v, p1 + 7, p2) {
        Some(x) => x,
        None => {
            return None;
        },
    };
    let adm = match parse_i64_digits(v, p2 + 12, n - 1) {
        Some(x) => x,
        None => {
            return None;
        },
    };
    Some(Claims { uid, exp, is_admin: adm })
}

/// Rendering then parsing gives back exactly the rendered fields.
#[verifier::rlimit(100)]
pub proof fn lemma_claims_json_roundtrip(uid: i64, exp: u64, adm: i64)
    ensures
        spec_parse_claims(spec_claims_json(uid as int, exp as nat, adm as int)) == Some(
            (uid as int, exp as int, adm as int),
        ),
{
    let ud = spec_i64_digits(uid as int);
    let ed = spec_u64_digits(exp as nat);
    let ad = spec_i64_digits(adm as int);
    let v = spec_claims_json(uid as int, exp as nat, adm as int);
    lemma_i64_digits_roundtrip(uid as int);
    lemma_u64_digits_roundtrip(exp as nat);
    lemma_i64_digits_roundtrip(adm as int);
    let p1 = 7 + ud.len() as int;
    let p2 = p1 + 7 + ed.len() as int;
    assert(v.len() == p2 + 12 + ad.len() + 1);
    assert(v.subrange(0, 7) =~= uid_prefix());
    assert(v.subrange(7, p1) =~= ud);
    assert(v.subrange(p1, p1 + 7) =~= exp_prefix());
    assert(v.subrange(p1 + 7, p2) =~= ed);
    assert(v.subrange(p2, p2 + 12) =~= adm_prefix());
    assert(v.subrange(p2 + 12, v.len() - 1) =~= ad);
    assert(v[v.len() - 1] == RBRACE);
    // The digit fields contain no comma, so the two comma searches land on
    // the field separators.
    assert forall|j: int| 7 <= j < p1 implies v[j] != COMMA by {
        assert(v[j] == ud[j - 7]);
        if ud[0] == MINUS {
            if j - 7 > 0 {
                assert(ud[j - 7] == ud.skip(1)[j - 8]);
                assert(48 <= ud.skip(1)[j - 8] <= 57);
            }
        } else {
            assert(48 <= ud[j - 7] <= 57);
        }
    }
    assert(v[p1] == COMMA);
    lemma_find_exact(v, 7, COMMA, p1);
    assert forall|j: int| p1 + 7 <= j < p2 implies v[j] != COMMA by {
        assert(v[j] == ed[j - (p1 + 7)]);
        assert(48 <= ed[j - (p1 + 7)] <= 57);
    }
    assert(v[p2] == COMMA);
    lemma_find_exact(v, p1 + 7, COMMA, p2);
}

} // verus!
