//! Base64 codec over the URL-safe alphabet, without padding: the framing
//! used for a token's header, payload and signature parts.
//!
//! Encoding and strict decoding invert each other
//! (`lemma_b64_roundtrip`), and every encoded byte stays inside the
//! alphabet (`lemma_encode_alphabet`), so encoded parts never contain the
//! `.` separator.

use vstd::prelude::*;

verus! {

/// The alphabet: `A`..`Z`, `a`..`z`, `0`..`9`, `-`, `_`.
pub open spec fn is_b64_byte(c: u8) -> bool {
    (65 <= c <= 90) || (97 <= c <= 122) || (48 <= c <= 57) || c == 45 || c == 95
}

/// The alphabet byte standing for a 6-bit value.
pub open spec fn b64_char_of(v: u8) -> u8 {
    if v < 26 {
        (65 + v) as u8
    } else if v < 52 {
        (97 + (v - 26)) as u8
    } else if v < 62 {
        (48 + (v - 52)) as u8
    } else if v == 62 {
        45
    } else {
        95
    }
}

/// The 6-bit value an alphabet byte stands for.
pub open spec fn b64_val_of(c: u8) -> u8 {
    if 65 <= c <= 90 {
        (c - 65) as u8
    } else if 97 <= c <= 122 {
        ((c - 97) + 26) as u8
    } else if 48 <= c <= 57 {
        ((c - 48) + 52) as u8
    } else if c == 45 {
        62
    } else {
        63
    }
}

pub proof fn lemma_char_val_inverse(v: u8)
    requires
        v < 64,
    ensures
        is_b64_byte(b64_char_of(v)),
        b64_val_of(b64_char_of(v)) == v,
{
}

/// Base64 rendering of a byte string, three bytes to four alphabet bytes,
/// with two- and three-byte tails for the last group, no padding.
pub open spec fn spec_b64_encode(s: Seq<u8>) -> Seq<u8>
    decreases s.len(),
{
    if s.len() == 0 {
        Seq::empty()
    } else if s.len() == 1 {
        let b0 = s[0];
        seq![b64_char_of(b0 >> 2), b64_char_of((b0 & 3) << 4)]
    } else if s.len() == 2 {
        let b0 = s[0];
        let b1 = s[1];
        seq![
            b64_char_of(b0 >> 2),
            b64_char_of(((b0 & 3) << 4) | (b1 >> 4)),
            b64_char_of((b1 & 15) << 2),
        ]
    } else {
        let b0 = s[0];
        let b1 = s[1];
        let b2 = s[2];
        seq![
            b64_char_of(b0 >> 2),
            b64_char_of(((b0 & 3) << 4) | (b1 >> 4)),
            b64_char_of(((b1 & 15) << 2) | (b2 >> 6)),
            b64_char_of(b2 & 63),
        ] + spec_b64_encode(s.skip(3))
    }
}

/// Strict base64 parsing: rejects anything outside the alphabet, lengths
/// that no encoding produces, and non-canonical trailing bits.
pub open spec fn spec_b64_decode(s: Seq<u8>) -> Option<Seq<u8>>
    decreases s.len(),
{
    if s.len() == 0 {
        Some(Seq::empty())
    } else if s.len() == 1 {
        None
    } else if s.len() == 2 {
        if is_b64_byte(s[0]) && is_b64_byte(s[1]) && b64_val_of(s[1]) & 15 == 0 {
            Some(seq![(b64_val_of(s[0]) << 2) | (b64_val_of(s[1]) >> 4)])
        } else {
            None
        }
    } else if s.len() == 3 {
        if is_b64_byte(s[0]) && is_b64_byte(s[1]) && is_b64_byte(s[2]) && b64_val_of(s[2]) & 3
            == 0 {
            Some(
                seq![
                    (b64_val_of(s[0]) << 2) | (b64_val_of(s[1]) >> 4),
                    ((b64_val_of(s[1]) & 15) << 4) | (b64_val_of(s[2]) >> 2),
                ],
            )
        } else {
            None
        }
    } else {
        if is_b64_byte(s[0]) && is_b64_byte(s[1]) && is_b64_byte(s[2]) && is_b64_byte(s[3]) {
            match spec_b64_decode(s.skip(4)) {
                Some(rest) => Some(
                    seq![
                        (b64_val_of(s[0]) << 2) | (b64_val_of(s[1]) >> 4),
                        ((b64_val_of(s[1]) & 15) << 4) | (b64_val_of(s[2]) >> 2),
                        ((b64_val_of(s[2]) & 3) << 6) | b64_val_of(s[3]),
                    ] + rest,
                ),
                None => None,
            }
        } else {
            None
        }
    }
}

/// Every byte of an encoding lies in the alphabet. In particular an
/// encoding never contains the `.` separator.
pub proof fn lemma_encode_alphabet(s: Seq<u8>)
    ensures
        forall|i: int|
            0 <= i < spec_b64_encode(s).len() ==> is_b64_byte(#[trigger] spec_b64_encode(s)[i]),
    decreases s.len(),
{
    let e = spec_b64_encode(s);
    if s.len() == 0 {
    } else if s.len() == 1 {
        let b0 = s[0];
        assert(b0 >> 2 < 64 && (b0 & 3) << 4 < 64) by (bit_vector);
        lemma_char_val_inverse(b0 >> 2);
        lemma_char_val_inverse((b0 & 3) << 4);
        assert(e[0] == b64_char_of(b0 >> 2) && e[1] == b64_char_of((b0 & 3) << 4));
    } else if s.len() == 2 {
        let b0 = s[0];
        let b1 = s[1];
        assert(b0 >> 2 < 64 && ((b0 & 3) << 4) | (b1 >> 4) < 64 && (b1 & 15) << 2 < 64)
            by (bit_vector);
        lemma_char_val_inverse(b0 >> 2);
        lemma_char_val_inverse(((b0 & 3) << 4) | (b1 >> 4));
        lemma_char_val_inverse((b1 & 15) << 2);
        assert(e[0] == b64_char_of(b0 >> 2) && e[1] == b64_char_of(((b0 & 3) << 4) | (b1 >> 4))
            && e[2] == b64_char_of((b1 & 15) << 2));
    } else {
        let b0 = s[0];
        let b1 = s[1];
        let b2 = s[2];
        assert(b0 >> 2 < 64 && ((b0 & 3) << 4) | (b1 >> 4) < 64 && ((b1 & 15) << 2) | (b2 >> 6)
            < 64 && b2 & 63 < 64) by (bit_vector);
        lemma_char_val_inverse(b0 >> 2);
        lemma_char_val_inverse(((b0 & 3) << 4) | (b1 >> 4));
        lemma_char_val_inverse(((b1 & 15) << 2) | (b2 >> 6));
        lemma_char_val_inverse(b2 & 63);
        lemma_encode_alphabet(s.skip(3));
        let tail = spec_b64_encode(s.skip(3));
        assert forall|i: int| 0 <= i < e.len() implies is_b64_byte(#[trigger] e[i]) by {
            if i == 0 {
                assert(e[0] == b64_char_of(b0 >> 2));
            } else if i == 1 {
                assert(e[1] == b64_char_of(((b0 & 3) << 4) | (b1 >> 4)));
            } else if i == 2 {
                assert(e[2] == b64_char_of(((b1 & 15) << 2) | (b2 >> 6)));
            } else if i == 3 {
                assert(e[3] == b64_char_of(b2 & 63));
            } else {
                assert(e[i] == tail[i - 4]);
                assert(is_b64_byte(tail[i - 4]));
            }
        }
    }
}

/// Strict decoding inverts encoding on every byte string.
pub proof fn lemma_b64_roundtrip(s: Seq<u8>)
    ensures
        spec_b64_decode(spec_b64_encode(s)) == Some(s),
    decreases s.len(),
{
    if s.len() == 0 {
        assert(spec_b64_encode(s) =~= Seq::<u8>::empty());
        assert(spec_b64_decode(spec_b64_encode(s)) == Some(Seq::<u8>::empty()));
        assert(Seq::<u8>::empty() =~= s);
    } else if s.len() == 1 {
        let b0 = s[0];
        let c0 = b0 >> 2;
        let c1 = (b0 & 3) << 4;
        assert(c0 < 64 && c1 < 64) by (bit_vector)
            requires
                c0 == b0 >> 2,
                c1 == (b0 & 3) << 4,
        ;
        lemma_char_val_inverse(c0);
        lemma_char_val_inverse(c1);
        assert(c1 & 15 == 0 && (c0 << 2) | (c1 >> 4) == b0) by (bit_vector)
            requires
                c0 == b0 >> 2,
                c1 == (b0 & 3) << 4,
        ;
        assert(spec_b64_decode(spec_b64_encode(s))->0 =~= s);
    } else if s.len() == 2 {
        let b0 = s[0];
        let b1 = s[1];
        let c0 = b0 >> 2;
        let c1 = ((b0 & 3) << 4) | (b1 >> 4);
        let c2 = (b1 & 15) << 2;
        assert(c0 < 64 && c1 < 64 && c2 < 64) by (bit_vector)
            requires
                c0 == b0 >> 2,
                c1 == ((b0 & 3) << 4) | (b1 >> 4),
                c2 == (b1 & 15) << 2,
        ;
        lemma_char_val_inverse(c0);
        lemma_char_val_inverse(c1);
        lemma_char_val_inverse(c2);
        assert(c2 & 3 == 0 && (c0 << 2) | (c1 >> 4) == b0 && ((c1 & 15) << 4) | (c2 >> 2) == b1)
            by (bit_vector)
            requires
                c0 == b0 >> 2,
                c1 == ((b0 & 3) << 4) | (b1 >> 4),
                c2 == (b1 & 15) << 2,
        ;
        assert(spec_b64_decode(spec_b64_encode(s))->0 =~= s);
    } else {
        let b0 = s[0];
        let b1 = s[1];
        let b2 = s[2];
        let c0 = b0 >> 2;
        let c1 = ((b0 & 3) << 4) | (b1 >> 4);
        let c2 = ((b1 & 15) << 2) | (b2 >> 6);
        let c3 = b2 & 63;
        assert(c0 < 64 && c1 < 64 && c2 < 64 && c3 < 64) by (bit_vector)
            requires
                c0 == b0 >> 2,
                c1 == ((b0 & 3) << 4) | (b1 >> 4),
                c2 == ((b1 & 15) << 2) | (b2 >> 6),
                c3 == b2 & 63,
        ;
        lemma_char_val_inverse(c0);
        lemma_char_val_inverse(c1);
        lemma_char_val_inverse(c2);
        lemma_char_val_inverse(c3);
        assert((c0 << 2) | (c1 >> 4) == b0 && ((c1 & 15) << 4) | (c2 >> 2) == b1 && ((c2 & 3) << 6)
            | c3 == b2) by (bit_vector)
            requires
                c0 == b0 >> 2,
                c1 == ((b0 & 3) << 4) | (b1 >> 4),
                c2 == ((b1 & 15) << 2) | (b2 >> 6),
                c3 == b2 & 63,
        ;
        lemma_b64_roundtrip(s.skip(3));
        let e = spec_b64_encode(s);
        let tail = spec_b64_encode(s.skip(3));
        assert(e.skip(4) =~= tail);
        assert(s.skip(3).len() == s.len() - 3);
        if s.len() == 3 {
            assert(tail =~= Seq::<u8>::empty());
            assert(e.len() == 4);
            assert(spec_b64_decode(e)->0 =~= s);
        } else if s.len() == 4 {
            assert(e.len() == 6);
            assert(spec_b64_decode(e)->0 =~= s);
        } else if s.len() == 5 {
            assert(e.len() == 7);
            assert(spec_b64_decode(e)->0 =~= s);
        } else {
            assert(e.len() >= 8);
            assert(spec_b64_decode(e)->0 =~= s);
        }
    }
}

/// The 6-bit value of one alphabet byte, or nothing for a byte outside
/// the alphabet.
fn b64_val(c: u8) -> (r: Option<u8>)
    ensures
        match r {
            Some(v) => is_b64_byte(c) && v == b64_val_of(c) && v < 64,
            None => !is_b64_byte(c),
        },
{
    if 65 <= c && c <= 90 {
        Some(c - 65)
    } else if 97 <= c && c <= 122 {
        Some(c - 97 + 26)
    } else if 48 <= c && c <= 57 {
        Some(c - 48 + 52)
    } else if c == 45 {
        Some(62)
    } else if c == 95 {
        Some(63)
    } else {
        None
    }
}

/// The alphabet byte of one 6-bit value.
fn b64_char(v: u8) -> (c: u8)
    requires
        v < 64,
    ensures
        c == b64_char_of(v),
{
    if v < 26 {
        65 + v
    } else if v < 52 {
        97 + (v - 26)
    } else if v < 62 {
        48 + (v - 52)
    } else if v == 62 {
        45
    } else {
        95
    }
}

/// Base64 rendering of `v`, no padding.
pub fn b64_encode(v: &Vec<u8>) -> (r: Vec<u8>)
    ensures
        r@ == spec_b64_encode(v@),
{
    let n = v.len();
    let mut out: Vec<u8> = Vec::new();
    let mut i: usize = 0;
    proof {
        assert(v@.skip(0) =~= v@);
    }
    while n - i >= 3
        invariant
            i <= n,
            n == v@.len(),
            spec_b64_encode(v@) == out@ + spec_b64_encode(v@.skip(i as int)),
        decreases n - i,
    {
        let ghost out0 = out@;
        let ghost cur = v@.skip(i as int);
        let b0 = v[i];
        let b1 = v[i + 1];
        let b2 = v[i + 2];
        proof {
            assert(b0 >> 2 < 64 && ((b0 & 3) << 4) | (b1 >> 4) < 64 && ((b1 & 15) << 2) | (b2 >> 6)
                < 64 && b2 & 63 < 64) by (bit_vector);
            assert(cur[0] == b0 && cur[1] == b1 && cur[2] == b2);
            assert(cur.skip(3) =~= v@.skip(i + 3));
        }
        out.push(b64_char(b0 >> 2));
        out.push(b64_char(((b0 & 3) << 4) | (b1 >> 4)));
        out.push(b64_char(((b1 & 15) << 2) | (b2 >> 6)));
        out.push(b64_char(b2 & 63));
        proof {
            let head = seq![
                b64_char_of(b0 >> 2),
                b64_char_of(((b0 & 3) << 4) | (b1 >> 4)),
                b64_char_of(((b1 & 15) << 2) | (b2 >> 6)),
                b64_char_of(b2 & 63),
            ];
            assert(out@ =~= out0 + head);
            assert(spec_b64_encode(cur) == head + spec_b64_encode(v@.skip(i + 3)));
            assert(out0 + (head + spec_b64_encode(v@.skip(i + 3))) =~= (out0 + head)
                + spec_b64_encode(v@.skip(i + 3)));
        }
        i += 3;
    }
    let ghost out1 = out@;
    let ghost cur = v@.skip(i as int);
    if n - i == 1 {
        let b0 = v[i];
        proof {
            assert(b0 >> 2 < 64 && (b0 & 3) << 4 < 64) by (bit_vector);
            assert(cur[0] == b0);
            assert(cur.len() == 1);
        }
        out.push(b64_char(b0 >> 2));
        out.push(b64_char((b0 & 3) << 4));
        proof {
            assert(spec_b64_encode(cur) == seq![b64_char_of(b0 >> 2), b64_char_of((b0 & 3) << 4)]);
            assert(out@ =~= out1 + spec_b64_encode(cur));
        }
    } else if n - i == 2 {
        let b0 = v[i];
        let b1 = v[i + 1];
        proof {
            assert(b0 >> 2 < 64 && ((b0 & 3) << 4) | (b1 >> 4) < 64 && (b1 & 15) << 2 < 64)
                by (bit_vector);
            assert(cur[0] == b0 && cur[1] == b1);
            assert(cur.len() == 2);
        }
        out.push(b64_char(b0 >> 2));
        out.push(b64_char(((b0 & 3) << 4) | (b1 >> 4)));
        out.push(b64_char((b1 & 15) << 2));
        proof {
            assert(spec_b64_encode(cur) == seq![
                b64_char_of(b0 >> 2),
                b64_char_of(((b0 & 3) << 4) | (b1 >> 4)),
                b64_char_of((b1 & 15) << 2),
            ]);
            assert(out@ =~= out1 + spec_b64_encode(cur));
        }
    } else {
        proof {
            assert(cur.len() == 0);
            assert(spec_b64_encode(cur) =~= Seq::<u8>::empty());
            assert(out@ =~= out1 + spec_b64_encode(cur));
        }
    }
    proof {
        assert(out@ =~= spec_b64_encode(v@));
    }
    out
}

/// Strict base64 parsing of the byte range `[from, to)` of `v`.
pub fn b64_decode_range(v: &Vec<u8>, from: usize, to: usize) -> (r: Option<Vec<u8>>)
    requires
        from <= to <= v@.len(),
    ensures
        ({
            let s = v@.subrange(from as int, to as int);
            match r {
                Some(out) => spec_b64_decode(s) == Some(out@),
                None => spec_b64_decode(s) is None,
            }
        }),
{
    let ghost s = v@.subrange(from as int, to as int);
    let mut out: Vec<u8> = Vec::new();
    let mut i: usize = from;
    proof {
        assert(v@.subrange(from as int, to as int) =~= s);
    }
    while to - i >= 4
        invariant
            from <= i <= to <= v@.len(),
            s == v@.subrange(from as int, to as int),
            match spec_b64_decode(v@.subrange(i as int, to as int)) {
                Some(rest) => spec_b64_decode(s) == Some(out@ + rest),
                None => spec_b64_decode(s) is None,
            },
        decreases to - i,
    {
        let ghost out0 = out@;
        let ghost cur = v@.subrange(i as int, to as int);
        let ghost next = v@.subrange(i + 4, to as int);
        proof {
            assert(cur.len() >= 4);
            assert(cur[0] == v@[i as int] && cur[1] == v@[i + 1] && cur[2] == v@[i + 2] && cur[3]
                == v@[i + 3]);
            assert(cur.skip(4) =~= next);
        }
        let c0 = match b64_val(v[i]) {
            Some(x) => x,
            None => {
                return None;
            },
        };
        let c1 = match b64_val(v[i + 1]) {
            Some(x) => x,
            None => {
                return None;
            },
        };
        let c2 = match b64_val(v[i + 2]) {
            Some(x) => x,
            None => {
                return None;
            },
        };
        let c3 = match b64_val(v[i + 3]) {
            Some(x) => x,
            None => {
                return None;
            },
        };
        out.push((c0 << 2) | (c1 >> 4));
        out.push(((c1 & 15) << 4) | (c2 >> 2));
        out.push(((c2 & 3) << 6) | c3);
        proof {
            let head = seq![
                (c0 << 2) | (c1 >> 4),
                ((c1 & 15) << 4) | (c2 >> 2),
                ((c2 & 3) << 6) | c3,
            ];
            assert(out@ =~= out0 + head);
            match spec_b64_decode(next) {
                Some(rest) => {
                    assert(spec_b64_decode(cur) == Some(head + rest));
                    assert(out0 + (head + rest) =~= out@ + rest);
                },
                None => {
                    assert(spec_b64_decode(cur) is None);
                },
            }
        }
        i += 4;
    }
    let rem = to - i;
    if rem == 0 {
        proof {
            assert(v@.subrange(i as int, to as int).len() == 0);
            assert(spec_b64_decode(v@.subrange(i as int, to as int)) == Some(Seq::<u8>::empty()));
            assert(out@ + Seq::<u8>::empty() =~= out@);
        }
        Some(out)
    } else if rem == 1 {
        proof {
            assert(v@.subrange(i as int, to as int).len() == 1);
        }
        None
    } else if rem == 2 {
        let ghost cur = v@.subrange(i as int, to as int);
        proof {
            assert(cur.len() == 2);
            assert(cur[0] == v@[i as int] && cur[1] == v@[i + 1]);
        }
        let c0 = match b64_val(v[i]) {
            Some(x) => x,
            None => {
                return None;
            },
        };
        let c1 = match b64_val(v[i + 1]) {
            Some(x) => x,
            None => {
                return None;
            },
        };
        if c1 & 15 != 0 {
            return None;
        }
        let ghost out0 = out@;
        out.push((c0 << 2) | (c1 >> 4));
        proof {
            assert(spec_b64_decode(cur) == Some(seq![(c0 << 2) | (c1 >> 4)]));
            assert(out0 + seq![(c0 << 2) | (c1 >> 4)] =~= out@);
        }
        Some(out)
    } else {
        let ghost cur = v@.subrange(i as int, to as int);
        proof {
            assert(cur.len() == 3);
            assert(cur[0] == v@[i as int] && cur[1] == v@[i + 1] && cur[2] == v@[i + 2]);
        }
        let c0 = match b64_val(v[i]) {
            Some(x) => x,
            None => {
                return None;
            },
        };
        let c1 = match b64_val(v[i + 1]) {
            Some(x) => x,
            None => {
                return None;
            },
        };
        let c2 = match b64_val(v[i + 2]) {
            Some(x) => x,
            None => {
                return None;
            },
        };
        if c2 & 3 != 0 {
            return None;
        }
        let ghost out0 = out@;
        out.push((c0 << 2) | (c1 >> 4));
        out.push(((c1 & 15) << 4) | (c2 >> 2));
        proof {
            assert(spec_b64_decode(cur) == Some(
                seq![(c0 << 2) | (c1 >> 4), ((c1 & 15) << 4) | (c2 >> 2)],
            ));
            assert(out0 + seq![(c0 << 2) | (c1 >> 4), ((c1 & 15) << 4) | (c2 >> 2)] =~= out@);
        }
        Some(out)
    }
}

} // verus!
