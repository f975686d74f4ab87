use access_core::ban::BanLedger;
use access_core::errors::AuthError;
use access_core::gate::{check_access, record_success, require_admin};
use access_core::rate::RateLimiter;
use access_core::types::Claims;
use access_core::{RATE_THRESHOLD, RATE_WINDOW_SECS, WEIGHT_POST};

#[test]
fn ban_then_unban_timeline() {
    // Subject 7 is banned for 3600 seconds at t=0: banned at t=1800;
    // after an unban at t=1800 it is clear at t=1801 even though the
    // expiry has not elapsed.
    let mut ledger = BanLedger::new();
    ledger.ban(7, 3600, "spam".to_string(), 0);
    assert!(ledger.is_banned(true, 7, 1800));
    ledger.unban(7);
    assert!(!ledger.is_banned(true, 7, 1801));
}

#[test]
fn ban_expires_on_its_own() {
    let mut ledger = BanLedger::new();
    ledger.ban(7, 3600, "spam".to_string(), 0);
    assert!(ledger.is_banned(true, 7, 3599));
    assert!(!ledger.is_banned(true, 7, 3600));
}

#[test]
fn never_banned_and_unknown_subject() {
    // Subject 9, never banned, is clear; a subject the account store
    // does not know is reported banned (fail-closed).
    let ledger = BanLedger::new();
    assert!(!ledger.is_banned(true, 9, 1800));
    assert!(ledger.is_banned(false, 11, 0));
}

#[test]
fn unban_of_never_banned_is_noop() {
    let mut ledger = BanLedger::new();
    ledger.unban(9);
    assert!(!ledger.is_banned(true, 9, 0));
    assert_eq!(ledger.records.len(), 0);
}

#[test]
fn latest_ban_record_wins() {
    // A later, shorter ban overrides an earlier, longer one.
    let mut ledger = BanLedger::new();
    ledger.ban(7, 10000, "first".to_string(), 0);
    ledger.ban(7, 100, "second".to_string(), 50);
    assert!(ledger.is_banned(true, 7, 149));
    assert!(!ledger.is_banned(true, 7, 150));
}

#[test]
fn unban_leaves_other_subjects_alone() {
    let mut ledger = BanLedger::new();
    ledger.ban(7, 3600, "spam".to_string(), 0);
    ledger.ban(8, 3600, "spam".to_string(), 0);
    ledger.unban(7);
    assert!(!ledger.is_banned(true, 7, 10));
    assert!(ledger.is_banned(true, 8, 10));
}

#[test]
fn rate_limit_trips_on_fifth_event() {
    // Five events of weight 12 inside ten seconds: after the fourth the
    // total is 48 and the subject is clear; the fifth makes 60 > 50.
    let mut limiter = RateLimiter::new(RATE_WINDOW_SECS, RATE_THRESHOLD);
    for k in 0..4u64 {
        limiter.record(3, 12, 2 * k);
        assert!(!limiter.is_limited(3, 2 * k + 1));
    }
    limiter.record(3, 12, 8);
    assert!(limiter.is_limited(3, 9));
    // 61 seconds after the first event, with no further activity, the
    // window has drained.
    assert!(!limiter.is_limited(3, 61));
}

#[test]
fn rate_limit_exact_threshold_is_allowed() {
    let mut limiter = RateLimiter::new(60, 50);
    limiter.record(3, 50, 0);
    assert!(!limiter.is_limited(3, 0));
    limiter.record(3, 1, 0);
    assert!(limiter.is_limited(3, 0));
}

#[test]
fn rate_limit_is_per_subject() {
    let mut limiter = RateLimiter::new(60, 50);
    limiter.record(3, 60, 0);
    assert!(limiter.is_limited(3, 1));
    assert!(!limiter.is_limited(4, 1));
}

#[test]
fn prune_changes_no_answer() {
    let mut limiter = RateLimiter::new(60, 50);
    limiter.record(3, 60, 0);
    limiter.record(3, 60, 100);
    let before = limiter.is_limited(3, 100);
    limiter.prune(100);
    assert_eq!(limiter.is_limited(3, 100), before);
    // The event from t=0 has aged out of the window ending at t=100.
    assert_eq!(limiter.events.len(), 1);
}

#[test]
fn gate_refuses_banned_first() {
    let mut bans = BanLedger::new();
    bans.ban(5, 3600, "spam".to_string(), 0);
    let mut limiter = RateLimiter::new(60, 50);
    limiter.record(5, 60, 10);
    let claims = Claims { uid: 5, exp: 9999, is_admin: 0 };
    // Banned and over the limit: the ban wins.
    assert_eq!(check_access(&bans, &limiter, &claims, true, 10), Err(AuthError::UserBanned));
}

#[test]
fn gate_rate_limits_plain_callers_only() {
    let bans = BanLedger::new();
    let mut limiter = RateLimiter::new(60, 50);
    limiter.record(5, 60, 10);
    let plain = Claims { uid: 5, exp: 9999, is_admin: 0 };
    let admin = Claims { uid: 5, exp: 9999, is_admin: 1 };
    assert_eq!(check_access(&bans, &limiter, &plain, true, 10), Err(AuthError::RateLimited));
    assert_eq!(check_access(&bans, &limiter, &admin, true, 10), Ok(()));
}

#[test]
fn gate_fail_closed_on_unknown_subject() {
    let bans = BanLedger::new();
    let limiter = RateLimiter::new(60, 50);
    let claims = Claims { uid: 5, exp: 9999, is_admin: 0 };
    assert_eq!(check_access(&bans, &limiter, &claims, false, 10), Err(AuthError::UserBanned));
    assert_eq!(check_access(&bans, &limiter, &claims, true, 10), Ok(()));
}

#[test]
fn admin_gate() {
    let admin = Claims { uid: 1, exp: 9999, is_admin: 1 };
    let plain = Claims { uid: 2, exp: 9999, is_admin: 0 };
    assert_eq!(require_admin(&admin), Ok(()));
    assert_eq!(require_admin(&plain), Err(AuthError::NotPrivileged));
}

#[test]
fn recording_success_charges_weight() {
    let bans = BanLedger::new();
    let mut limiter = RateLimiter::new(60, 50);
    let claims = Claims { uid: 5, exp: 9999, is_admin: 0 };
    for k in 0..10u64 {
        assert_eq!(check_access(&bans, &limiter, &claims, true, k), Ok(()));
        record_success(&mut limiter, &claims, WEIGHT_POST, k);
    }
    // Ten posts of weight five spend exactly the threshold, which is
    // still allowed; the eleventh pushes past it.
    assert_eq!(check_access(&bans, &limiter, &claims, true, 10), Ok(()));
    record_success(&mut limiter, &claims, WEIGHT_POST, 10);
    assert_eq!(check_access(&bans, &limiter, &claims, true, 11), Err(AuthError::RateLimited));
}
