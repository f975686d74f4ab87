//! The authorization gate: the fixed decision pipeline every mutating
//! request passes before any work is done.
//!
//! Per request: verify the token (`TokenService::verify`), refuse banned
//! or unknown subjects, rate-limit the unprivileged; on success the
//! caller performs the domain operation and records its weight. The
//! account-store lookup for the claimed subject happens between the token
//! check and the rest, so the pipeline is split around it; the decision
//! itself is all here.
//!
//! The rate check and the later weight recording are two separate calls,
//! so two concurrent requests from one subject can both pass the check
//! before either records — a transient over-limit burst. That is the
//! accepted behavior; each call's contract speaks for that call alone,
//! and a caller wanting strict enforcement can serialize the pair.

use vstd::prelude::*;
use crate::ban::BanLedger;
use crate::creds::{get_hash, hash_matches, verify_hash};
use crate::errors::AuthError;
use crate::rate::{RateLimiter, spec_window_weight};
use crate::token::{TokenService, ascii_bytes, spec_token_bytes, spec_verify};
use crate::types::{Claims, UserBanRequest, UserUnbanRequest};

verus! {

/// Whether `claims` names an administrator.
pub open spec fn spec_is_admin(claims: Claims) -> bool {
    claims.is_admin == 1
}

/// Whether the subject counts as banned at `now`: unknown subjects are
/// refused outright (fail-closed), known ones by their ban ledger.
pub open spec fn spec_refused_as_banned(
    bans: &BanLedger,
    subject_exists: bool,
    id: i64,
    now: u64,
) -> bool {
    !subject_exists || BanLedger::spec_banned(bans.records@, id, now)
}

/// Whether the subject is over the rate threshold at `now`.
pub open spec fn spec_over_limit(limiter: &RateLimiter, id: i64, now: u64) -> bool {
    spec_window_weight(limiter.events@, id, now, limiter.window_secs) > limiter.threshold
}

/// Steps two and three of the pipeline, after the token has been
/// verified: refuse banned or unknown subjects, then rate-limit callers
/// who are not administrators. The ban check comes first, so a banned
/// subject reads `UserBanned` even when also over the limit.
pub fn check_access(
    bans: &BanLedger,
    limiter: &RateLimiter,
    claims: &Claims,
    subject_exists: bool,
    now: u64,
) -> (r: Result<(), AuthError>)
    requires
        limiter.wf(),
    ensures
        match r {
            Ok(()) => !spec_refused_as_banned(bans, subject_exists, claims.uid, now) && (
            spec_is_admin(*claims) || !spec_over_limit(limiter, claims.uid, now)),
            Err(e) => (e == AuthError::UserBanned && spec_refused_as_banned(
                bans,
                subject_exists,
                claims.uid,
                now,
            )) || (e == AuthError::RateLimited && !spec_refused_as_banned(
                bans,
                subject_exists,
                claims.uid,
                now,
            ) && !spec_is_admin(*claims) && spec_over_limit(limiter, claims.uid, now)),
        },
{
    if bans.is_banned(subject_exists, claims.uid, now) {
        return Err(AuthError::UserBanned);
    }
    if claims.is_admin != 1 && limiter.is_limited(claims.uid, now) {
        return Err(AuthError::RateLimited);
    }
    Ok(())
}

/// The extra step of administrative endpoints: only a privileged token
/// may pass, independent of ban and rate checks.
pub fn require_admin(claims: &Claims) -> (r: Result<(), AuthError>)
    ensures
        match r {
            Ok(()) => spec_is_admin(*claims),
            Err(e) => e == AuthError::NotPrivileged && !spec_is_admin(*claims),
        },
{
    if claims.is_admin == 1 {
        Ok(())
    } else {
        Err(AuthError::NotPrivileged)
    }
}

/// Step five: after the gated operation succeeds, charge its weight to
/// the subject's activity ledger.
pub fn record_success(limiter: &mut RateLimiter, claims: &Claims, weight: u32, now: u64)
    ensures
        final(limiter).window_secs == old(limiter).window_secs,
        final(limiter).threshold == old(limiter).threshold,
        final(limiter).events@ == old(limiter).events@.push(
            crate::rate::ActivityEvent { subject_id: claims.uid, weight, occurred_at: now },
        ),
{
    limiter.record(claims.uid, weight, now);
}

/// The signup work after the store has checked the name is free and
/// picked a fresh subject id: hash the password for storage and issue a
/// plain, unprivileged token for the new subject. Yields nothing only
/// when the operating system refuses the randomness the salt needs.
pub fn signup_credentials(
    tokens: &TokenService,
    new_user_id: i64,
    password: String,
    now: u64,
) -> (r: Option<(String, String)>)
    requires
        password@.len() < 0x4000_0000,
        now + tokens.lifetime_secs <= u64::MAX,
    ensures
        match r {
            Some((hash, t)) => hash_matches(password@, hash@) && ascii_bytes(t@)
                == spec_token_bytes(
                new_user_id as int,
                (now + tokens.lifetime_secs) as nat,
                0,
                tokens.secret@,
            ) && forall|at: u64|
                at < now + tokens.lifetime_secs ==> #[trigger] spec_verify(
                    ascii_bytes(t@),
                    tokens.secret@,
                    at,
                ) is Some,
            None => true,
        },
{
    match get_hash(password) {
        Some(hash) => {
            let t = tokens.issue(new_user_id, false, now);
            Some((hash, t))
        },
        None => None,
    }
}

/// When a ban asked for at `now` with the request's signed length
/// lapses: a non-positive length lapses at once, and a length past the
/// end of the clock saturates.
pub open spec fn spec_ban_expiry(now: u64, len: i64) -> u64 {
    if len <= 0 {
        now
    } else if now + len > u64::MAX {
        u64::MAX
    } else {
        (now + len) as u64
    }
}

/// The administrative ban endpoint's decision: only a holder of a valid,
/// privileged token may suspend an existing subject; on success one
/// fresh, active record for the requested subject enters the ledger,
/// lapsing `ban_length` seconds from `now`. The purge of the subject's
/// content that follows a ban is the surrounding store's duty, triggered
/// by a success here.
///
/// `subject_exists` is the account store's answer for `request.user_id`.
pub fn ban_user(
    tokens: &TokenService,
    bans: &mut BanLedger,
    token: &str,
    request: &UserBanRequest,
    subject_exists: bool,
    now: u64,
) -> (r: Result<(), AuthError>)
    ensures
        ({
            let v = spec_verify(ascii_bytes(token@), tokens.secret@, now);
            match r {
                Ok(()) => {
                    let rec = final(bans).records@.last();
                    &&& vstd::utf8::is_ascii_chars(token@)
                    &&& (v matches Some((uid, exp, adm)) && adm == 1)
                    &&& subject_exists
                    &&& final(bans).records@ == old(bans).records@.push(rec)
                    &&& rec.subject_id == request.user_id
                    &&& rec.given_at == now
                    &&& rec.expires_at == spec_ban_expiry(now, request.ban_length)
                    &&& rec.reason@ == request.ban_message@
                    &&& rec.is_active
                },
                Err(e) => final(bans).records@ == old(bans).records@ && ((e
                    == AuthError::InvalidToken && (!vstd::utf8::is_ascii_chars(token@) || v
                    is None)) || (e == AuthError::NotPrivileged && (v matches Some(
                    (uid, exp, adm),
                ) && adm != 1)) || (e == AuthError::UserNotFound && (v matches Some(
                    (uid, exp, adm),
                ) && adm == 1) && !subject_exists)),
            }
        }),
{
    let claims = match tokens.verify(token, now) {
        Ok(c) => c,
        Err(e) => {
            return Err(e);
        },
    };
    if let Err(e) = require_admin(&claims) {
        return Err(e);
    }
    if !subject_exists {
        return Err(AuthError::UserNotFound);
    }
    let duration: u64 = if request.ban_length <= 0 {
        0
    } else {
        let len = request.ban_length as u64;
        if len > u64::MAX - now {
            u64::MAX - now
        } else {
            len
        }
    };
    bans.ban(request.user_id, duration, request.ban_message.clone(), now);
    Ok(())
}

/// The administrative unban endpoint's decision: only a holder of a
/// valid, privileged token may lift an existing subject's suspensions.
/// On success the history keeps its length and every record keeps its
/// subject, times and reason; a record stays active exactly when it was
/// active and belongs to another subject — so the subject is banned at
/// no time, no other subject's standing moves, and unbanning a subject
/// with no active record changes nothing and succeeds the same way.
pub fn unban_user(
    tokens: &TokenService,
    bans: &mut BanLedger,
    token: &str,
    request: &UserUnbanRequest,
    subject_exists: bool,
    now: u64,
) -> (r: Result<(), AuthError>)
    ensures
        ({
            let v = spec_verify(ascii_bytes(token@), tokens.secret@, now);
            match r {
                Ok(()) => {
                    &&& vstd::utf8::is_ascii_chars(token@)
                    &&& (v matches Some((uid, exp, adm)) && adm == 1)
                    &&& subject_exists
                    &&& final(bans).records@.len() == old(bans).records@.len()
                    &&& forall|i: int|
                        0 <= i < old(bans).records@.len() ==> {
                            let r0 = old(bans).records@[i];
                            let r1 = #[trigger] final(bans).records@[i];
                            r1.subject_id == r0.subject_id && r1.given_at == r0.given_at
                                && r1.expires_at == r0.expires_at && r1.reason@ == r0.reason@
                                && r1.is_active == (r0.is_active && r0.subject_id
                                != request.user_id)
                        }
                    &&& forall|t: u64|
                        !BanLedger::spec_banned(final(bans).records@, request.user_id, t)
                    &&& forall|id2: i64, t: u64|
                        id2 != request.user_id ==> #[trigger] BanLedger::spec_banned(
                            final(bans).records@,
                            id2,
                            t,
                        ) == BanLedger::spec_banned(old(bans).records@, id2, t)
                },
                Err(e) => final(bans).records@ == old(bans).records@ && ((e
                    == AuthError::InvalidToken && (!vstd::utf8::is_ascii_chars(token@) || v
                    is None)) || (e == AuthError::NotPrivileged && (v matches Some(
                    (uid, exp, adm),
                ) && adm != 1)) || (e == AuthError::UserNotFound && (v matches Some(
                    (uid, exp, adm),
                ) && adm == 1) && !subject_exists)),
            }
        }),
{
    let claims = match tokens.verify(token, now) {
        Ok(c) => c,
        Err(e) => {
            return Err(e);
        },
    };
    if let Err(e) = require_admin(&claims) {
        return Err(e);
    }
    if !subject_exists {
        return Err(AuthError::UserNotFound);
    }
    let ghost before = bans.records@;
    bans.unban(request.user_id);
    proof {
        BanLedger::lemma_unban_preserves_others(before, bans.records@, request.user_id);
    }
    Ok(())
}

/// The login decision, given what the account store answered for the
/// claimed name: refuse unknown names, banned subjects and wrong
/// passwords — a wrong password carries the same client wording as an
/// unknown name — and otherwise issue a token for the stored subject id
/// and privilege flag.
///
/// `account` is `(subject_id, stored password hash, is_admin)` as the
/// store keeps it, or nothing when the name resolves to no account.
pub fn login(
    tokens: &TokenService,
    bans: &BanLedger,
    account: Option<(i64, String, i64)>,
    password: String,
    now: u64,
) -> (r: Result<String, AuthError>)
    requires
        now + tokens.lifetime_secs <= u64::MAX,
    ensures
        match r {
            Ok(t) => match account {
                Some((uid, hash, adm)) => !BanLedger::spec_banned(bans.records@, uid, now)
                    && hash_matches(password@, hash@) && ascii_bytes(t@) == spec_token_bytes(
                    uid as int,
                    (now + tokens.lifetime_secs) as nat,
                    if adm == 1 {
                        1int
                    } else {
                        0int
                    },
                    tokens.secret@,
                ) && forall|at: u64|
                    at < now + tokens.lifetime_secs ==> #[trigger] spec_verify(
                        ascii_bytes(t@),
                        tokens.secret@,
                        at,
                    ) is Some,
                None => false,
            },
            Err(e) => match account {
                Some((uid, hash, adm)) => (e == AuthError::UserBanned && BanLedger::spec_banned(
                    bans.records@,
                    uid,
                    now,
                )) || (e == AuthError::CredentialMismatch && !BanLedger::spec_banned(
                    bans.records@,
                    uid,
                    now,
                ) && !hash_matches(password@, hash@)),
                None => e == AuthError::UserNotFound,
            },
        },
{
    match account {
        None => Err(AuthError::UserNotFound),
        Some((uid, hash, adm)) => {
            if bans.is_banned(true, uid, now) {
                return Err(AuthError::UserBanned);
            }
            if !verify_hash(password, hash) {
                return Err(AuthError::CredentialMismatch);
            }
            Ok(tokens.issue(uid, adm == 1, now))
        },
    }
}

} // verus!
