//! Time-bounded ban ledger.
//!
//! Suspensions are append-only records; "currently banned" is derived at
//! query time from the most recently given record, never stored directly.
//! A subject that is not known to the account store is reported as banned
//! (fail-closed).

use vstd::prelude::*;

verus! {

/// One suspension entry. Entries are never deleted; `unban` merely clears
/// `is_active` on the subject's entries.
pub struct BanRecord {
    pub subject_id: i64,
    /// When the ban was given (unix seconds).
    pub given_at: u64,
    /// When the ban lapses on its own (unix seconds).
    pub expires_at: u64,
    pub reason: String,
    pub is_active: bool,
}

/// Append-only history of suspension events, most recent record authoritative.
pub struct BanLedger {
    pub records: Vec<BanRecord>,
}

impl BanLedger {
    /// The authoritative record for `id`: among the records with the largest
    /// `given_at`, the one appended last.
    pub open spec fn spec_latest(s: Seq<BanRecord>, id: i64) -> Option<BanRecord>
        decreases s.len(),
    {
        if s.len() == 0 {
            None
        } else {
            let prev = Self::spec_latest(s.drop_last(), id);
            let last = s.last();
            if last.subject_id == id && (prev is None || last.given_at >= prev->0.given_at) {
                Some(last)
            } else {
                prev
            }
        }
    }

    /// Whether `id` counts as banned at time `now`, given that the subject
    /// exists: its authoritative record is still active and unexpired.
    pub open spec fn spec_banned(s: Seq<BanRecord>, id: i64, now: u64) -> bool {
        match Self::spec_latest(s, id) {
            Some(r) => r.is_active && r.expires_at > now,
            None => false,
        }
    }

    /// The authoritative record, when there is one, is one of the subject's
    /// own records and carries the largest `given_at` among them.
    pub proof fn lemma_latest_in_records(s: Seq<BanRecord>, id: i64)
        ensures
            match Self::spec_latest(s, id) {
                Some(r) => exists|i: int|
                    0 <= i < s.len() && s[i] == r && #[trigger] s[i].subject_id == id,
                None => forall|i: int| 0 <= i < s.len() ==> #[trigger] s[i].subject_id != id,
            },
        decreases s.len(),
    {
        if s.len() > 0 {
            Self::lemma_latest_in_records(s.drop_last(), id);
            match Self::spec_latest(s, id) {
                Some(r) => {
                    if s.last().subject_id == id && (Self::spec_latest(s.drop_last(), id) is None
                        || s.last().given_at >= Self::spec_latest(s.drop_last(), id)->0.given_at) {
                        assert(s[s.len() - 1] == r && s[s.len() - 1].subject_id == id);
                    } else {
                        let i = choose|i: int|
                            0 <= i < s.drop_last().len() && s.drop_last()[i] == r
                                && #[trigger] s.drop_last()[i].subject_id == id;
                        assert(s[i] == r && s[i].subject_id == id);
                    }
                },
                None => {
                    assert forall|i: int| 0 <= i < s.len() implies #[trigger] s[i].subject_id
                        != id by {
                        if i < s.len() - 1 {
                            assert(s.drop_last()[i] == s[i]);
                            assert(s.drop_last()[i].subject_id != id);
                        }
                    }
                },
            }
        }
    }

    /// If every record of `id` is inactive, `id` is not banned at any time.
    pub proof fn lemma_all_inactive_not_banned(s: Seq<BanRecord>, id: i64)
        requires
            forall|i: int|
                0 <= i < s.len() && #[trigger] s[i].subject_id == id ==> !s[i].is_active,
        ensures
            forall|t: u64| !Self::spec_banned(s, id, t),
    {
        Self::lemma_latest_in_records(s, id);
    }

    /// `unban(id)` touches only `id`'s standing: any other subject is
    /// banned after exactly when it was banned before. The premises are
    /// what `unban` ensures of the record sequence.
    pub proof fn lemma_unban_preserves_others(s1: Seq<BanRecord>, s2: Seq<BanRecord>, id: i64)
        requires
            s1.len() == s2.len(),
            forall|i: int|
                0 <= i < s1.len() ==> {
                    let r0 = s1[i];
                    let r1 = #[trigger] s2[i];
                    r1.subject_id == r0.subject_id && r1.given_at == r0.given_at && r1.expires_at
                        == r0.expires_at && r1.is_active == (r0.is_active && r0.subject_id != id)
                },
        ensures
            forall|id2: i64, t: u64|
                id2 != id ==> #[trigger] Self::spec_banned(s2, id2, t) == Self::spec_banned(
                    s1,
                    id2,
                    t,
                ),
    {
        assert forall|id2: i64, t: u64| id2 != id implies #[trigger] Self::spec_banned(s2, id2, t)
            == Self::spec_banned(s1, id2, t) by {
            Self::lemma_latest_agrees(s1, s2, id, id2);
        }
    }

    /// The authoritative records that two field-wise agreeing histories
    /// give a subject other than `id` agree on everything `spec_banned`
    /// reads.
    proof fn lemma_latest_agrees(s1: Seq<BanRecord>, s2: Seq<BanRecord>, id: i64, id2: i64)
        requires
            id2 != id,
            s1.len() == s2.len(),
            forall|i: int|
                0 <= i < s1.len() ==> {
                    let r0 = s1[i];
                    let r1 = #[trigger] s2[i];
                    r1.subject_id == r0.subject_id && r1.given_at == r0.given_at && r1.expires_at
                        == r0.expires_at && r1.is_active == (r0.is_active && r0.subject_id != id)
                },
        ensures
            match (Self::spec_latest(s1, id2), Self::spec_latest(s2, id2)) {
                (Some(r1), Some(r2)) => r1.given_at == r2.given_at && r1.expires_at
                    == r2.expires_at && r1.is_active == r2.is_active && r1.subject_id
                    == r2.subject_id,
                (None, None) => true,
                _ => false,
            },
        decreases s1.len(),
    {
        if s1.len() > 0 {
            assert(s2.drop_last().len() == s1.drop_last().len());
            assert forall|i: int| 0 <= i < s1.drop_last().len() implies {
                let r0 = s1.drop_last()[i];
                let r1 = #[trigger] s2.drop_last()[i];
                r1.subject_id == r0.subject_id && r1.given_at == r0.given_at && r1.expires_at
                    == r0.expires_at && r1.is_active == (r0.is_active && r0.subject_id != id)
            } by {
                assert(s1.drop_last()[i] == s1[i] && s2.drop_last()[i] == s2[i]);
            }
            Self::lemma_latest_agrees(s1.drop_last(), s2.drop_last(), id, id2);
            assert(s1.last() == s1[s1.len() - 1] && s2.last() == s2[s1.len() - 1]);
        }
    }

    pub fn new() -> (r: BanLedger)
        ensures
            r.records@.len() == 0,
    {
        BanLedger { records: Vec::new() }
    }

    /// Append a fresh, active suspension: given now, lapsing after
    /// `duration_seconds`. Earlier records are left untouched; only the
    /// newest record is ever consulted, so layering is implicit.
    pub fn ban(&mut self, subject_id: i64, duration_seconds: u64, reason: String, now: u64)
        requires
            now + duration_seconds <= u64::MAX,
        ensures
            final(self).records@.len() == old(self).records@.len() + 1,
            final(self).records@ == old(self).records@.push(final(self).records@.last()),
            ({
                let r = final(self).records@.last();
                r.subject_id == subject_id && r.given_at == now && r.expires_at == now
                    + duration_seconds && r.reason == reason && r.is_active
            }),
            // Unless the clock ran backwards past an older ban, the fresh
            // record is now authoritative: banned exactly until it expires.
            (match Self::spec_latest(old(self).records@, subject_id) {
                Some(p) => p.given_at <= now,
                None => true,
            }) ==> forall|t: u64|
                Self::spec_banned(final(self).records@, subject_id, t) == (now + duration_seconds
                    > t),
    {
        let expires_at = now + duration_seconds;
        let rec = BanRecord { subject_id, given_at: now, expires_at, reason, is_active: true };
        self.records.push(rec);
        proof {
            assert(final(self).records@.drop_last() =~= old(self).records@);
        }
    }

    /// Clear `is_active` on every record of `subject_id`. Idempotent: a
    /// subject with no active record is left as it stands, and afterwards the
    /// subject is not banned at any time.
    pub fn unban(&mut self, subject_id: i64)
        ensures
            final(self).records@.len() == old(self).records@.len(),
            forall|i: int|
                0 <= i < old(self).records@.len() ==> {
                    let r0 = old(self).records@[i];
                    let r1 = #[trigger] final(self).records@[i];
                    r1.subject_id == r0.subject_id && r1.given_at == r0.given_at && r1.expires_at
                        == r0.expires_at && r1.reason@ == r0.reason@ && r1.is_active == (
                    r0.is_active && r0.subject_id != subject_id)
                },
            forall|t: u64| !Self::spec_banned(final(self).records@, subject_id, t),
    {
        let n = self.records.len();
        let mut i: usize = 0;
        while i < n
            invariant
                i <= n,
                n == self.records.len(),
                self.records@.len() == old(self).records@.len(),
                forall|j: int|
                    i <= j < n ==> #[trigger] self.records@[j] == old(self).records@[j],
                forall|j: int|
                    0 <= j < i ==> {
                        let r0 = old(self).records@[j];
                        let r1 = #[trigger] self.records@[j];
                        r1.subject_id == r0.subject_id && r1.given_at == r0.given_at
                            && r1.expires_at == r0.expires_at && r1.reason@ == r0.reason@
                            && r1.is_active == (r0.is_active && r0.subject_id != subject_id)
                    },
            decreases n - i,
        {
            if self.records[i].subject_id == subject_id && self.records[i].is_active {
                let updated = BanRecord {
                    subject_id,
                    given_at: self.records[i].given_at,
                    expires_at: self.records[i].expires_at,
                    reason: self.records[i].reason.clone(),
                    is_active: false,
                };
                self.records[i] = updated;
            }
            i += 1;
        }
        proof {
            Self::lemma_all_inactive_not_banned(self.records@, subject_id);
        }
    }

    /// Whether `subject_id` is currently banned. A subject unknown to the
    /// account store is reported banned (fail-closed); otherwise the
    /// authoritative record decides.
    pub fn is_banned(&self, subject_exists: bool, subject_id: i64, now: u64) -> (r: bool)
        ensures
            r == (!subject_exists || Self::spec_banned(self.records@, subject_id, now)),
    {
        if !subject_exists {
            return true;
        }
        let n = self.records.len();
        let mut best: Option<usize> = None;
        let mut i: usize = 0;
        while i < n
            invariant
                i <= n,
                n == self.records.len(),
                match best {
                    Some(b) => b < i && self.records@[b as int].subject_id == subject_id
                        && Self::spec_latest(self.records@.take(i as int), subject_id) == Some(
                        self.records@[b as int],
                    ),
                    None => Self::spec_latest(self.records@.take(i as int), subject_id) is None,
                },
            decreases n - i,
        {
            proof {
                assert(self.records@.take(i + 1).drop_last() =~= self.records@.take(i as int));
                assert(self.records@.take(i + 1).last() == self.records@[i as int]);
            }
            if self.records[i].subject_id == subject_id {
                let take_it = match best {
                    Some(b) => self.records[i].given_at >= self.records[b].given_at,
                    None => true,
                };
                if take_it {
                    best = Some(i);
                }
            }
            i += 1;
        }
        proof {
            assert(self.records@.take(n as int) =~= self.records@);
        }
        match best {
            Some(b) => self.records[b].is_active && self.records[b].expires_at > now,
            None => false,
        }
    }
}

} // verus!
