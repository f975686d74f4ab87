//! Stateless signed tokens: issuance and verification.
//!
//! A token is three dot-separated base64url parts: a fixed header, the
//! claims payload, and an HMAC-SHA256 tag over the first two parts. The
//! framing, payload and checks are built and verified here; only the tag
//! itself comes from an outside crate, under a named, trusted contract.
//! Validity is purely a function of the signature and the expiry; there is
//! no server-side token state and no revocation list. Rotating the secret
//! invalidates every outstanding token: an accepted tradeoff of the
//! stateless design.

use vstd::prelude::*;
use crate::b64::{
    b64_decode_range, b64_encode, is_b64_byte, lemma_b64_roundtrip, lemma_encode_alphabet,
    spec_b64_decode, spec_b64_encode,
};
use crate::errors::AuthError;
use crate::payload::{
    claims_json, find_byte, lemma_claims_json_roundtrip, lemma_find_char, lemma_find_exact,
    parse_claims, spec_claims_json, spec_find, spec_parse_claims,
};
use crate::types::Claims;
use vstd::string::StrSliceExecFns;

verus! {

/// ASCII code of `'.'`, the part separator.
pub const DOT: u8 = 46;

/// The character codes of an ASCII string, byte for byte.
pub open spec fn ascii_bytes(s: Seq<char>) -> Seq<u8> {
    Seq::new(s.len(), |i: int| s[i] as u8)
}

/// The bytes of `{"typ":"JWT","alg":"HS256"}`, the one header this
/// service issues and accepts.
pub open spec fn header_json() -> Seq<u8> {
    seq![
        123u8, 34, 116, 121, 112, 34, 58, 34, 74, 87, 84, 34, 44, 34, 97, 108, 103, 34, 58, 34,
        72, 83, 50, 53, 54, 34, 125,
    ]
}

pub open spec fn spec_header_b64() -> Seq<u8> {
    spec_b64_encode(header_json())
}

/// What gets signed: the encoded header, a dot, the encoded payload.
pub open spec fn spec_signing_input(uid: int, exp: nat, adm: int) -> Seq<u8> {
    spec_header_b64() + seq![DOT] + spec_b64_encode(spec_claims_json(uid, exp, adm))
}

/// The base64url-encoded HMAC-SHA256 tag over `message` under `key`: a
/// function of the two alone, left without a definition here; the signing
/// wrapper below is the only thing that speaks for it.
pub uninterp spec fn hs256_sig(message: Seq<u8>, key: Seq<u8>) -> Seq<u8>;

/// The full token for the given claims under `key`.
pub open spec fn spec_token_bytes(uid: int, exp: nat, adm: int, key: Seq<u8>) -> Seq<u8> {
    spec_signing_input(uid, exp, adm) + seq![DOT] + hs256_sig(
        spec_signing_input(uid, exp, adm),
        key,
    )
}

/// Splitting a token at its two dots; any other number of dots is
/// malformed.
pub open spec fn spec_split3(t: Seq<u8>) -> Option<(Seq<u8>, Seq<u8>, Seq<u8>)> {
    match spec_find(t, 0, DOT) {
        None => None,
        Some(d1) => match spec_find(t, d1 + 1, DOT) {
            None => None,
            Some(d2) => match spec_find(t, d2 + 1, DOT) {
                Some(_) => None,
                None => Some(
                    (t.subrange(0, d1), t.subrange(d1 + 1, d2), t.subrange(d2 + 1, t.len() as int)),
                ),
            },
        },
    }
}

/// What verification accepts: the exact claims of a token whose header is
/// canonical, whose payload parses, whose tag matches `key`, and whose
/// expiry lies after `now` — and nothing for every other byte string.
pub open spec fn spec_verify(t: Seq<u8>, key: Seq<u8>, now: u64) -> Option<(int, int, int)> {
    match spec_split3(t) {
        None => None,
        Some((h, p, s)) => {
            if h != spec_header_b64() {
                None
            } else {
                match spec_b64_decode(p) {
                    None => None,
                    Some(pj) => match spec_parse_claims(pj) {
                        None => None,
                        Some((uid, exp, adm)) => {
                            if s == hs256_sig(h + seq![DOT] + p, key) && exp > now {
                                Some((uid, exp, adm))
                            } else {
                                None
                            }
                        },
                    },
                }
            }
        },
    }
}

/// Relies on `jsonwebtoken::crypto::sign` with `Algorithm::HS256` and an
/// `EncodingKey::from_secret` key: the returned tag is the base64url
/// rendering (URL-safe alphabet, no padding) of the HMAC-SHA256 of the
/// message under the key — a deterministic function of the two, here named
/// `hs256_sig` — and HMAC signing itself cannot fail.
#[verifier::external_body]
fn hs256_sign(message: &Vec<u8>, key: &Vec<u8>) -> (r: Vec<u8>)
    ensures
        r@ == hs256_sig(message@, key@),
        forall|i: int| 0 <= i < r@.len() ==> is_b64_byte(#[trigger] r@[i]),
{
    let encoding_key = jsonwebtoken::EncodingKey::from_secret(key.as_slice());
    let tag = jsonwebtoken::crypto::sign(message.as_slice(), &encoding_key,
        jsonwebtoken::Algorithm::HS256).unwrap();
    tag.into_bytes()
}

/// Relies on `String::from_utf8`: bytes below 128 are valid UTF-8 and
/// decode one to one to the characters with the same codes.
#[verifier::external_body]
fn ascii_string(v: Vec<u8>) -> (r: String)
    requires
        forall|i: int| 0 <= i < v@.len() ==> v@[i] < 128,
    ensures
        r@.len() == v@.len(),
        forall|i: int| 0 <= i < v@.len() ==> (#[trigger] r@[i]) as u8 == v@[i],
        vstd::utf8::is_ascii_chars(r@),
{
    String::from_utf8(v).unwrap()
}

/// The byte range `[from, to)` of `v` as its own vector.
fn sub_vec(v: &Vec<u8>, from: usize, to: usize) -> (r: Vec<u8>)
    requires
        from <= to <= v@.len(),
    ensures
        r@ == v@.subrange(from as int, to as int),
{
    let mut out: Vec<u8> = Vec::new();
    let mut i: usize = from;
    while i < to
        invariant
            from <= i <= to <= v@.len(),
            out@ =~= v@.subrange(from as int, i as int),
        decreases to - i,
    {
        out.push(v[i]);
        proof {
            assert(v@.subrange(from as int, i + 1) =~= v@.subrange(from as int, i as int).push(
                v@[i as int],
            ));
        }
        i += 1;
    }
    out
}

fn header_json_vec() -> (r: Vec<u8>)
    ensures
        r@ == header_json(),
{
    let mut v: Vec<u8> = Vec::new();
    v.push(123);
    v.push(34);
    v.push(116);
    v.push(121);
    v.push(112);
    v.push(34);
    v.push(58);
    v.push(34);
    v.push(74);
    v.push(87);
    v.push(84);
    v.push(34);
    v.push(44);
    v.push(34);
    v.push(97);
    v.push(108);
    v.push(103);
    v.push(34);
    v.push(58);
    v.push(34);
    v.push(72);
    v.push(83);
    v.push(50);
    v.push(53);
    v.push(54);
    v.push(34);
    v.push(125);
    proof {
        assert(v@ =~= header_json());
    }
    v
}

/// A fresh token parses, carries its claims unchanged, and is accepted
/// exactly until its expiry, under the key that signed it.
pub proof fn lemma_token_verifies(uid: i64, exp: u64, adm: i64, key: Seq<u8>, sig: Seq<u8>, at: u64)
    requires
        sig == hs256_sig(spec_signing_input(uid as int, exp as nat, adm as int), key),
        forall|i: int| 0 <= i < sig.len() ==> is_b64_byte(#[trigger] sig[i]),
    ensures
        spec_verify(spec_token_bytes(uid as int, exp as nat, adm as int, key), key, at) == (if at
            < exp {
            Some((uid as int, exp as int, adm as int))
        } else {
            None::<(int, int, int)>
        }),
{
    lemma_token_splits(uid, exp, adm, key, sig);
    lemma_b64_roundtrip(spec_claims_json(uid as int, exp as nat, adm as int));
    lemma_claims_json_roundtrip(uid, exp, adm);
    assert(spec_header_b64() + seq![DOT] + spec_b64_encode(
        spec_claims_json(uid as int, exp as nat, adm as int),
    ) =~= spec_signing_input(uid as int, exp as nat, adm as int));
}

/// A fresh token splits at exactly its two separators into the canonical
/// header, the encoded payload, and the tag: the tag, like the other two
/// parts, stays inside the dot-free base64url alphabet.
pub proof fn lemma_token_splits(uid: i64, exp: u64, adm: i64, key: Seq<u8>, sig: Seq<u8>)
    requires
        sig == hs256_sig(spec_signing_input(uid as int, exp as nat, adm as int), key),
        forall|i: int| 0 <= i < sig.len() ==> is_b64_byte(#[trigger] sig[i]),
    ensures
        spec_split3(spec_token_bytes(uid as int, exp as nat, adm as int, key)) == Some(
            (spec_header_b64(), spec_b64_encode(
                spec_claims_json(uid as int, exp as nat, adm as int),
            ), sig),
        ),
{
    let h = spec_header_b64();
    let pj = spec_claims_json(uid as int, exp as nat, adm as int);
    let p = spec_b64_encode(pj);
    let t = spec_token_bytes(uid as int, exp as nat, adm as int, key);
    lemma_encode_alphabet(header_json());
    lemma_encode_alphabet(pj);
    let d1 = h.len() as int;
    let d2 = d1 + 1 + p.len() as int;
    assert(t.len() == d2 + 1 + sig.len());
    assert(t.subrange(0, d1) =~= h);
    assert(t.subrange(d1 + 1, d2) =~= p);
    assert(t.subrange(d2 + 1, t.len() as int) =~= sig);
    assert(t[d1] == DOT && t[d2] == DOT);
    assert forall|j: int| 0 <= j < d1 implies t[j] != DOT by {
        assert(t[j] == h[j]);
        assert(is_b64_byte(h[j]));
    }
    lemma_find_exact(t, 0, DOT, d1);
    assert forall|j: int| d1 + 1 <= j < d2 implies t[j] != DOT by {
        assert(t[j] == p[j - (d1 + 1)]);
        assert(is_b64_byte(p[j - (d1 + 1)]));
    }
    lemma_find_exact(t, d1 + 1, DOT, d2);
    lemma_find_char(t, d2 + 1, DOT);
    match spec_find(t, d2 + 1, DOT) {
        Some(k) => {
            assert(t[k] == sig[k - (d2 + 1)]);
            assert(is_b64_byte(sig[k - (d2 + 1)]));
            assert(false);
        },
        None => {},
    }
}

/// Issues and verifies the signed, time-limited identity assertions that
/// every protected request presents. Holds the one shared symmetric
/// secret, injected at construction, and the configured token lifetime.
pub struct TokenService {
    pub secret: Vec<u8>,
    pub lifetime_secs: u64,
}

impl TokenService {
    pub fn new(secret: Vec<u8>, lifetime_secs: u64) -> (r: TokenService)
        ensures
            r.secret@ == secret@,
            r.lifetime_secs == lifetime_secs,
    {
        TokenService { secret, lifetime_secs }
    }

    /// Build and sign a token for `subject_id`, privileged or not, expiring
    /// `lifetime_secs` after `now`. The token is accepted by `verify`
    /// under the same secret exactly until that expiry, with the claims
    /// unchanged — the round-trip law, stated in the final clause.
    pub fn issue(&self, subject_id: i64, is_privileged: bool, now: u64) -> (t: String)
        requires
            now + self.lifetime_secs <= u64::MAX,
        ensures
            ({
                let exp = (now + self.lifetime_secs) as u64;
                let adm: int = if is_privileged {
                    1
                } else {
                    0
                };
                &&& vstd::utf8::is_ascii_chars(t@)
                &&& ascii_bytes(t@) == spec_token_bytes(
                    subject_id as int,
                    exp as nat,
                    adm,
                    self.secret@,
                )
                &&& forall|at: u64|
                    #[trigger] spec_verify(ascii_bytes(t@), self.secret@, at) == (if at < exp {
                        Some((subject_id as int, exp as int, adm))
                    } else {
                        None::<(int, int, int)>
                    })
            }),
    {
        let exp = now + self.lifetime_secs;
        let adm_flag: i64 = if is_privileged {
            1
        } else {
            0
        };
        let claims = Claims { uid: subject_id, exp, is_admin: adm_flag };
        let hj = header_json_vec();
        let mut msg = b64_encode(&hj);
        msg.push(DOT);
        let pj = claims_json(&claims);
        let mut p64 = b64_encode(&pj);
        msg.append(&mut p64);
        proof {
            assert(msg@ =~= spec_signing_input(subject_id as int, exp as nat, adm_flag as int));
        }
        let mut sig = hs256_sign(&msg, &self.secret);
        let ghost sig_view = sig@;
        let mut token_bytes = msg;
        token_bytes.push(DOT);
        token_bytes.append(&mut sig);
        proof {
            assert(token_bytes@ =~= spec_token_bytes(
                subject_id as int,
                exp as nat,
                adm_flag as int,
                self.secret@,
            ));
            lemma_encode_alphabet(header_json());
            lemma_encode_alphabet(spec_claims_json(subject_id as int, exp as nat, adm_flag as int));
            assert forall|i: int| 0 <= i < token_bytes@.len() implies token_bytes@[i] < 128 by {
                let h = spec_header_b64();
                let p = spec_b64_encode(
                    spec_claims_json(subject_id as int, exp as nat, adm_flag as int),
                );
                let d1 = h.len() as int;
                let d2 = d1 + 1 + p.len() as int;
                if i < d1 {
                    assert(token_bytes@[i] == h[i] && is_b64_byte(h[i]));
                } else if i == d1 || i == d2 {
                } else if i < d2 {
                    assert(token_bytes@[i] == p[i - (d1 + 1)] && is_b64_byte(p[i - (d1 + 1)]));
                } else {
                    assert(token_bytes@[i] == sig_view[i - (d2 + 1)] && is_b64_byte(
                        sig_view[i - (d2 + 1)],
                    ));
                }
            }
        }
        let t = ascii_string(token_bytes);
        proof {
            assert(ascii_bytes(t@) =~= spec_token_bytes(
                subject_id as int,
                exp as nat,
                adm_flag as int,
                self.secret@,
            ));
            assert forall|at: u64|
                #[trigger] spec_verify(ascii_bytes(t@), self.secret@, at) == (if at < exp {
                    Some((subject_id as int, exp as int, adm_flag as int))
                } else {
                    None::<(int, int, int)>
                }) by {
                lemma_token_verifies(subject_id, exp, adm_flag, self.secret@, sig_view, at);
            }
        }
        t
    }

    /// Check a presented token: signature first, then expiry. Exactly the
    /// tokens described by `spec_verify` pass; every failure — not ASCII,
    /// bad framing, foreign header, unparsable payload, wrong tag,
    /// expired — collapses to the one `InvalidToken` kind, so a caller
    /// cannot tell which check failed.
    #[verifier::loop_isolation(false)]
    pub fn verify(&self, token: &str, now: u64) -> (r: Result<Claims, AuthError>)
        ensures
            match r {
                Ok(c) => vstd::utf8::is_ascii_chars(token@) && spec_verify(
                    ascii_bytes(token@),
                    self.secret@,
                    now,
                ) == Some((c.uid as int, c.exp as int, c.is_admin as int)) && c.exp > now,
                Err(e) => e == AuthError::InvalidToken && (!vstd::utf8::is_ascii_chars(token@)
                    || spec_verify(ascii_bytes(token@), self.secret@, now) is None),
            },
    {
        if !token.is_ascii() {
            return Err(AuthError::InvalidToken);
        }
        let bytes = token.as_bytes_vec();
        proof {
            broadcast use vstd::string::is_ascii_spec_bytes;

            assert(bytes@ =~= ascii_bytes(token@));
        }
        let ghost tb = bytes@;
        let n = bytes.len();
        let d1 = match find_byte(&bytes, 0, DOT) {
            Some(k) => k,
            None => {
                return Err(AuthError::InvalidToken);
            },
        };
        let d2 = match find_byte(&bytes, d1 + 1, DOT) {
            Some(k) => k,
            None => {
                return Err(AuthError::InvalidToken);
            },
        };
        match find_byte(&bytes, d2 + 1, DOT) {
            Some(_) => {
                return Err(AuthError::InvalidToken);
            },
            None => {},
        };
        proof {
            lemma_find_char(tb, 0, DOT);
            lemma_find_char(tb, d1 + 1, DOT);
            assert(tb[d1 as int] == DOT && tb[d2 as int] == DOT);
            assert(spec_split3(tb) == Some(
                (tb.subrange(0, d1 as int), tb.subrange(d1 + 1, d2 as int), tb.subrange(
                    d2 + 1,
                    tb.len() as int,
                )),
            ));
        }
        let hj = header_json_vec();
        let hvec = b64_encode(&hj);
        if d1 != hvec.len() {
            proof {
                assert(tb.subrange(0, d1 as int).len() != spec_header_b64().len());
            }
            return Err(AuthError::InvalidToken);
        }
        let mut i: usize = 0;
        while i < d1
            invariant
                i <= d1,
                d1 < n == bytes@.len(),
                tb == bytes@,
                d1 == hvec@.len(),
                hvec@ == spec_header_b64(),
                forall|j: int| 0 <= j < i ==> bytes@[j] == hvec@[j],
            decreases d1 - i,
        {
            if bytes[i] != hvec[i] {
                proof {
                    assert(tb.subrange(0, d1 as int)[i as int] != spec_header_b64()[i as int]);
                }
                return Err(AuthError::InvalidToken);
            }
            i += 1;
        }
        proof {
            assert(tb.subrange(0, d1 as int) =~= spec_header_b64());
        }
        let payload = match b64_decode_range(&bytes, d1 + 1, d2) {
            Some(x) => x,
            None => {
                return Err(AuthError::InvalidToken);
            },
        };
        let claims = match parse_claims(&payload) {
            Some(c) => c,
            None => {
                return Err(AuthError::InvalidToken);
            },
        };
        let msg = sub_vec(&bytes, 0, d2);
        proof {
            assert(msg@ =~= tb.subrange(0, d1 as int) + seq![DOT] + tb.subrange(d1 + 1, d2 as int));
        }
        let sig = hs256_sign(&msg, &self.secret);
        let ghost s_part = tb.subrange(d2 + 1, tb.len() as int);
        if n - (d2 + 1) != sig.len() {
            proof {
                assert(s_part.len() != sig@.len());
            }
            return Err(AuthError::InvalidToken);
        }
        let mut i: usize = 0;
        let m = sig.len();
        while i < m
            invariant
                i <= m,
                m == sig@.len(),
                d2 + 1 + m == n,
                n == bytes@.len(),
                tb == bytes@,
                forall|j: int| 0 <= j < i ==> bytes@[d2 + 1 + j] == sig@[j],
            decreases m - i,
        {
            if bytes[d2 + 1 + i] != sig[i] {
                proof {
                    assert(s_part[i as int] != sig@[i as int]);
                }
                return Err(AuthError::InvalidToken);
            }
            i += 1;
        }
        proof {
            assert(s_part =~= sig@);
        }
        if claims.exp <= now {
            return Err(AuthError::InvalidToken);
        }
        Ok(claims)
    }
}

/// A token whose signature part is not the tag of its own first two parts
/// under the verifier's key is rejected, whatever else it holds. In
/// particular a token signed with a different secret passes only if the
/// two secrets give the same tag for this message.
pub proof fn lemma_wrong_signature_rejected(t: Seq<u8>, key: Seq<u8>, now: u64)
    requires
        match spec_split3(t) {
            Some((h, p, s)) => s != hs256_sig(h + seq![DOT] + p, key),
            None => true,
        },
    ensures
        spec_verify(t, key, now) is None,
{
}

/// A token issued under one secret and verified under another is
/// rejected, unless the two secrets happen to give the same tag for this
/// very message — the one case no mathematics short of an HMAC collision
/// bound can exclude.
pub proof fn lemma_foreign_secret_rejected(
    uid: i64,
    exp: u64,
    adm: i64,
    issuing_key: Seq<u8>,
    verifying_key: Seq<u8>,
    sig: Seq<u8>,
    at: u64,
)
    requires
        sig == hs256_sig(spec_signing_input(uid as int, exp as nat, adm as int), issuing_key),
        forall|i: int| 0 <= i < sig.len() ==> is_b64_byte(#[trigger] sig[i]),
        hs256_sig(spec_signing_input(uid as int, exp as nat, adm as int), issuing_key)
            != hs256_sig(spec_signing_input(uid as int, exp as nat, adm as int), verifying_key),
    ensures
        spec_verify(
            spec_token_bytes(uid as int, exp as nat, adm as int, issuing_key),
            verifying_key,
            at,
        ) is None,
{
    lemma_token_splits(uid, exp, adm, issuing_key, sig);
    let h = spec_header_b64();
    let p = spec_b64_encode(spec_claims_json(uid as int, exp as nat, adm as int));
    assert(h + seq![DOT] + p =~= spec_signing_input(uid as int, exp as nat, adm as int));
}

/// An expired token is rejected, regardless of an otherwise valid
/// signature, header and payload.
pub proof fn lemma_expired_rejected(t: Seq<u8>, key: Seq<u8>, now: u64)
    ensures
        match spec_verify(t, key, now) {
            Some((uid, exp, adm)) => exp > now,
            None => true,
        },
{
}

} // verus!
