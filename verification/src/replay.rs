//! Replay protection: a proof is accepted once per user and nonce, and only
//! while its timestamp lies within the allowed clock drift.

use vstd::prelude::*;

use crate::text::{append_decimal, decimal, text};
use crate::zkp_core_engine::Proof;

verus! {

/// The clock drift that `ReplayProtector::default` allows, in seconds.
pub const DEFAULT_MAX_DRIFT_SECS: i64 = 60;

/// Why a proof is refused.
#[derive(Debug, PartialEq, Eq, Structural, Clone, Copy)]
pub enum ReplayError {
    /// The proof is older than the allowed drift.
    ProofExpired { age_secs: i64, max_allowed: i64 },
    /// The proof's timestamp lies further in the future than the allowed drift.
    ClockSkewFuture { drift_secs: i64 },
    /// The nonce was already used by this user within the window.
    ReplayDetected,
}

/// The text of a refusal.
pub open spec fn replay_error_text(e: ReplayError) -> Seq<char> {
    match e {
        ReplayError::ProofExpired { age_secs, max_allowed } => "Proof expired: age "@ + decimal(age_secs as int)
            + "s exceeds maximum allowed drift of "@ + decimal(max_allowed as int) + "s"@,
        ReplayError::ClockSkewFuture { drift_secs } => "Future timestamp detected: clock skew of "@ + decimal(
            drift_secs as int,
        ) + "s exceeds maximum allowed"@,
        ReplayError::ReplayDetected => "Replay attack detected: Nonce has already been used for this user"@,
    }
}

impl ReplayError {
    /// The human-readable description of the refusal.
    pub fn message(&self) -> (msg: String)
        ensures
            msg@ == replay_error_text(*self),
    {
        match self {
            ReplayError::ProofExpired { age_secs, max_allowed } => {
                let mut m = text("Proof expired: age ");
                append_decimal(&mut m, *age_secs);
                m.append("s exceeds maximum allowed drift of ");
                append_decimal(&mut m, *max_allowed);
                m.append("s");
                m
            },
            ReplayError::ClockSkewFuture { drift_secs } => {
                let mut m = text("Future timestamp detected: clock skew of ");
                append_decimal(&mut m, *drift_secs);
                m.append("s exceeds maximum allowed");
                m
            },
            ReplayError::ReplayDetected => text(
                "Replay attack detected: Nonce has already been used for this user",
            ),
        }
    }
}

/// A remembered use of a nonce.
struct NonceRecord {
    user_id: String,
    nonce: [u8; 16],
    timestamp: i64,
}

/// The key under which a use is remembered: the user and the nonce.
pub type NonceKey = (Seq<char>, Seq<u8>);

spec fn key_of(r: NonceRecord) -> NonceKey {
    (r.user_id@, r.nonce@)
}

/// The map from (user, nonce) to timestamp that a list of records holds.
spec fn records_map(s: Seq<NonceRecord>) -> Map<NonceKey, i64>
    decreases s.len(),
{
    if s.len() == 0 {
        Map::empty()
    } else {
        records_map(s.drop_last()).insert(key_of(s.last()), s.last().timestamp)
    }
}

spec fn keys_unique(s: Seq<NonceRecord>) -> bool {
    forall|i: int, j: int| 0 <= i < j < s.len() ==> key_of(s[i]) != key_of(s[j])
}

/// The entries of `seen` whose timestamp is at least `cutoff`.
pub open spec fn prune(seen: Map<NonceKey, i64>, cutoff: int) -> Map<NonceKey, i64> {
    Map::new(|k: NonceKey| seen.contains_key(k) && seen[k] >= cutoff, |k: NonceKey| seen[k])
}

/// One step of replay protection: what `check_and_record_at` answers and the
/// uses it remembers afterwards, given the uses `seen` it remembered before.
pub open spec fn replay_step(
    seen: Map<NonceKey, i64>,
    max_drift: i64,
    user: Seq<char>,
    nonce: Seq<u8>,
    timestamp: i64,
    now: i64,
) -> (Result<(), ReplayError>, Map<NonceKey, i64>) {
    let diff = now - timestamp;
    if diff < -max_drift {
        (Err(ReplayError::ClockSkewFuture { drift_secs: (-diff) as i64 }), seen)
    } else if diff > max_drift {
        (Err(ReplayError::ProofExpired { age_secs: diff as i64, max_allowed: max_drift }), seen)
    } else {
        let kept = prune(seen, now - max_drift);
        if kept.contains_key((user, nonce)) {
            (Err(ReplayError::ReplayDetected), kept)
        } else {
            (Ok(()), kept.insert((user, nonce), timestamp))
        }
    }
}

/// The arithmetic of a step stays within `i64`.
pub open spec fn step_fits(max_drift: i64, timestamp: i64, now: i64) -> bool {
    &&& i64::MIN < max_drift
    &&& i64::MIN <= now - timestamp <= i64::MAX
    &&& i64::MIN < now - timestamp
    &&& i64::MIN <= now - max_drift <= i64::MAX
}

/// Remembers which nonces each user has used within the allowed drift.
///
/// The uses are kept as a list of records with pairwise distinct keys: with
/// a `(String, [u8; 16])` key, `std`'s hash map gives Verus nothing to
/// reason with, so the list and its invariant carry the map's role.
pub struct ReplayProtector {
    max_drift_secs: i64,
    seen_nonces: Vec<NonceRecord>,
}

proof fn lemma_records_map_dom(s: Seq<NonceRecord>, k: NonceKey)
    ensures
        records_map(s).contains_key(k) <==> exists|i: int| 0 <= i < s.len() && key_of(#[trigger] s[i]) == k,
    decreases s.len(),
{
    if s.len() > 0 {
        lemma_records_map_dom(s.drop_last(), k);
        if records_map(s.drop_last()).contains_key(k) {
            let i = choose|i: int| 0 <= i < s.drop_last().len() && key_of(#[trigger] s.drop_last()[i]) == k;
            assert(s[i] == s.drop_last()[i]);
        }
        if exists|i: int| 0 <= i < s.len() && key_of(#[trigger] s[i]) == k {
            let i = choose|i: int| 0 <= i < s.len() && key_of(#[trigger] s[i]) == k;
            if i < s.len() - 1 {
                assert(s.drop_last()[i] == s[i]);
            }
        }
    }
}

proof fn lemma_records_map_len(s: Seq<NonceRecord>)
    requires
        keys_unique(s),
    ensures
        records_map(s).dom().finite(),
        records_map(s).len() == s.len(),
    decreases s.len(),
{
    if s.len() > 0 {
        let t = s.drop_last();
        assert(keys_unique(t)) by {
            assert forall|i: int, j: int| 0 <= i < j < t.len() implies key_of(t[i]) != key_of(t[j]) by {
                assert(t[i] == s[i] && t[j] == s[j]);
            }
        }
        lemma_records_map_len(t);
        lemma_records_map_dom(t, key_of(s.last()));
        if records_map(t).contains_key(key_of(s.last())) {
            let i = choose|i: int| 0 <= i < t.len() && key_of(#[trigger] t[i]) == key_of(s.last());
            assert(t[i] == s[i]);
        }
    }
}

fn nonces_equal(a: &[u8; 16], b: &[u8; 16]) -> (eq: bool)
    ensures
        eq == (a@ == b@),
{
    let mut i: usize = 0;
    while i < 16
        invariant
            i <= 16,
            forall|j: int| 0 <= j < i ==> a@[j] == b@[j],
        decreases 16 - i,
    {
        if a[i] != b[i] {
            return false;
        }
        i = i + 1;
    }
    assert(a@ =~= b@);
    true
}

/// Whether some record is the use of `nonce` by `user`.
fn holds_key(records: &Vec<NonceRecord>, user: &String, nonce: &[u8; 16]) -> (found: bool)
    ensures
        found == records_map(records@).contains_key((user@, nonce@)),
{
    proof {
        lemma_records_map_dom(records@, (user@, nonce@));
    }
    let n = records.len();
    let mut i: usize = 0;
    while i < n
        invariant
            n == records@.len(),
            i <= n,
            forall|j: int| 0 <= j < i ==> key_of(#[trigger] records@[j]) != (user@, nonce@),
        decreases n - i,
    {
        let r = &records[i];
        let same_user = r.user_id == *user;
        let same_nonce = nonces_equal(&r.nonce, nonce);
        if same_user && same_nonce {
            assert(r.user_id@ == user@);
            assert(key_of(records@[i as int]) == (user@, nonce@));
            proof {
                lemma_records_map_dom(records@, (user@, nonce@));
            }
            return true;
        }
        i = i + 1;
    }
    false
}

/// The records whose timestamp is at least `cutoff`, in their order.
fn records_since(records: &Vec<NonceRecord>, cutoff: i64) -> (kept: Vec<NonceRecord>)
    requires
        keys_unique(records@),
    ensures
        keys_unique(kept@),
        records_map(kept@) == prune(records_map(records@), cutoff as int),
{
    let n = records.len();
    let mut kept: Vec<NonceRecord> = Vec::new();
    let mut i: usize = 0;
    while i < n
        invariant
            n == records@.len(),
            i <= n,
            keys_unique(records@),
            keys_unique(kept@),
            forall|j: int| #![trigger kept@[j]] 0 <= j < kept@.len() ==> exists|m: int|
                0 <= m < i && key_of(kept@[j]) == key_of(#[trigger] records@[m]),
            records_map(kept@) == prune(records_map(records@.take(i as int)), cutoff as int),
        decreases n - i,
    {
        let r = &records[i];
        let ghost before = records@.take(i as int);
        let ghost k = key_of(records@[i as int]);
        proof {
            assert(records@.take(i + 1).drop_last() =~= before);
            lemma_records_map_dom(before, k);
            if records_map(before).contains_key(k) {
                let m = choose|m: int| 0 <= m < before.len() && key_of(#[trigger] before[m]) == k;
                assert(before[m] == records@[m]);
            }
        }
        if r.timestamp >= cutoff {
            let ghost old_kept = kept@;
            kept.push(NonceRecord { user_id: r.user_id.clone(), nonce: r.nonce, timestamp: r.timestamp });
            proof {
                assert(kept@.drop_last() =~= old_kept);
                assert(records_map(kept@) =~= prune(records_map(records@.take(i + 1)), cutoff as int));
                assert forall|a: int, b: int| 0 <= a < b < kept@.len() implies key_of(kept@[a]) != key_of(
                    kept@[b],
                ) by {
                    if b == kept@.len() - 1 {
                        assert(old_kept[a] == kept@[a]);
                        let m = choose|m: int| 0 <= m < i && key_of(old_kept[a]) == key_of(#[trigger] records@[m]);
                    } else {
                        assert(old_kept[a] == kept@[a] && old_kept[b] == kept@[b]);
                    }
                }
                assert forall|j: int| #![trigger kept@[j]] 0 <= j < kept@.len() implies exists|m: int|
                    0 <= m < i + 1 && key_of(kept@[j]) == key_of(#[trigger] records@[m]) by {
                    if j == kept@.len() - 1 {
                        assert(key_of(kept@[j]) == key_of(records@[i as int]));
                    } else {
                        assert(old_kept[j] == kept@[j]);
                    }
                }
            }
        } else {
            proof {
                assert(records_map(kept@) =~= prune(records_map(records@.take(i + 1)), cutoff as int));
            }
        }
        i = i + 1;
    }
    assert(records@.take(n as int) =~= records@);
    kept
}

impl Default for ReplayProtector {
    fn default() -> (p: Self)
        ensures
            p.max_drift() == DEFAULT_MAX_DRIFT_SECS,
            p.seen() == Map::<NonceKey, i64>::empty(),
    {
        Self::new(DEFAULT_MAX_DRIFT_SECS)
    }
}

impl ReplayProtector {
    #[verifier::type_invariant]
    spec fn well_formed(self) -> bool {
        keys_unique(self.seen_nonces@)
    }

    /// The allowed clock drift in seconds.
    pub closed spec fn max_drift(self) -> i64 {
        self.max_drift_secs
    }

    /// The remembered uses: (user, nonce) to the proof's timestamp.
    pub closed spec fn seen(self) -> Map<NonceKey, i64> {
        records_map(self.seen_nonces@)
    }

    /// A protector with the given allowed drift that remembers nothing yet.
    pub fn new(max_drift_secs: i64) -> (p: Self)
        ensures
            p.max_drift() == max_drift_secs,
            p.seen() == Map::<NonceKey, i64>::empty(),
    {
        ReplayProtector { max_drift_secs, seen_nonces: Vec::new() }
    }

    /// The number of remembered uses.
    pub fn active_nonces_count(&self) -> (n: usize)
        ensures
            n == self.seen().len(),
            self.seen().dom().finite(),
    {
        proof {
            use_type_invariant(self);
            lemma_records_map_len(self.seen_nonces@);
        }
        self.seen_nonces.len()
    }

    /// Checks `proof`, presented by `user_id` at Unix time `now`: its
    /// timestamp must lie within the allowed drift of `now`, and its nonce
    /// must not have been used by the user within the window. Uses older
    /// than the window are forgotten; an accepted use is remembered.
    pub fn check_and_record_at(&mut self, user_id: &str, proof: &Proof, now: i64) -> (res: Result<(), ReplayError>)
        requires
            step_fits(old(self).max_drift(), proof.timestamp, now),
        ensures
            final(self).max_drift() == old(self).max_drift(),
            old(self).seen().dom().finite(),
            final(self).seen().dom().finite(),
            (res, final(self).seen()) == replay_step(
                old(self).seen(),
                old(self).max_drift(),
                user_id@,
                proof.nonce@,
                proof.timestamp,
                now,
            ),
    {
        proof {
            use_type_invariant(&*self);
            lemma_records_map_len(self.seen_nonces@);
            lemma_step_count(self.seen(), self.max_drift_secs, user_id@, proof.nonce@, proof.timestamp, now);
        }
        let diff = now - proof.timestamp;
        if diff < -self.max_drift_secs {
            return Err(ReplayError::ClockSkewFuture { drift_secs: -diff });
        }
        if diff > self.max_drift_secs {
            return Err(ReplayError::ProofExpired { age_secs: diff, max_allowed: self.max_drift_secs });
        }
        let cutoff = now - self.max_drift_secs;
        let mut kept = records_since(&self.seen_nonces, cutoff);
        let user = String::from_str(user_id);
        if holds_key(&kept, &user, &proof.nonce) {
            self.seen_nonces = kept;
            return Err(ReplayError::ReplayDetected);
        }
        let ghost before = kept@;
        proof {
            lemma_records_map_dom(before, (user@, proof.nonce@));
        }
        kept.push(NonceRecord { user_id: user, nonce: proof.nonce, timestamp: proof.timestamp });
        proof {
            assert(kept@.drop_last() =~= before);
            assert forall|a: int, b: int| 0 <= a < b < kept@.len() implies key_of(kept@[a]) != key_of(kept@[b]) by {
                assert(kept@[a] == before[a] || a == kept@.len() - 1);
                if b == kept@.len() - 1 {
                    assert(kept@[a] == before[a]);
                } else {
                    assert(kept@[a] == before[a] && kept@[b] == before[b]);
                }
            }
        }
        self.seen_nonces = kept;
        Ok(())
    }

    /// `check_and_record_at` with the current Unix time; `None`, remembering
    /// nothing new, where the time arithmetic would leave `i64`.
    pub fn check_and_record(&mut self, user_id: &str, proof: &Proof) -> (res: Option<Result<(), ReplayError>>)
        ensures
            final(self).max_drift() == old(self).max_drift(),
            old(self).seen().dom().finite(),
            final(self).seen().dom().finite(),
            res is None ==> final(self).seen() == old(self).seen() && exists|now: i64|
                crate::clock::is_seconds_reading(now as int) && !#[trigger] step_fits(
                    old(self).max_drift(),
                    proof.timestamp,
                    now,
                ),
            res matches Some(r) ==> exists|now: i64|
                crate::clock::is_seconds_reading(now as int) && #[trigger] step_fits(old(self).max_drift(), proof.timestamp, now) && (r, final(self).seen())
                    == replay_step(old(self).seen(), old(self).max_drift(), user_id@, proof.nonce@, proof.timestamp, now),
    {
        proof {
            use_type_invariant(&*self);
            lemma_records_map_len(self.seen_nonces@);
        }
        let now = crate::clock::unix_time_now();
        if self.step_fits_at(proof.timestamp, now) {
            Some(self.check_and_record_at(user_id, proof, now))
        } else {
            None
        }
    }

    /// Whether a check at `now` of a proof stamped `timestamp` stays within `i64`.
    pub fn step_fits_at(&self, timestamp: i64, now: i64) -> (fits: bool)
        ensures
            fits == step_fits(self.max_drift(), timestamp, now),
    {
        if self.max_drift_secs == i64::MIN {
            return false;
        }
        if !crate::clock::difference_fits(now, timestamp) {
            return false;
        }
        if self.max_drift_secs >= 0 {
            now >= i64::MIN + self.max_drift_secs
        } else {
            now <= i64::MAX + self.max_drift_secs
        }
    }
}

/// The use of `nonce` by `user` with timestamp `timestamp` is either still
/// remembered, or so old that at time `now` it falls outside the window.
pub open spec fn remembered_or_stale(
    seen: Map<NonceKey, i64>,
    max_drift: i64,
    user: Seq<char>,
    nonce: Seq<u8>,
    timestamp: i64,
    now: i64,
) -> bool {
    ||| seen.contains_key((user, nonce)) && seen[(user, nonce)] == timestamp
    ||| timestamp < now - max_drift
}

/// An accepted proof is fresh: its timestamp lies within the allowed drift of
/// the time at which it was checked.
pub proof fn lemma_accepted_is_fresh(
    seen: Map<NonceKey, i64>,
    max_drift: i64,
    user: Seq<char>,
    nonce: Seq<u8>,
    timestamp: i64,
    now: i64,
)
    requires
        replay_step(seen, max_drift, user, nonce, timestamp, now).0 is Ok,
    ensures
        -max_drift <= now - timestamp <= max_drift,
{
}

/// An accepted use is remembered afterwards.
pub proof fn lemma_accepted_is_remembered(
    seen: Map<NonceKey, i64>,
    max_drift: i64,
    user: Seq<char>,
    nonce: Seq<u8>,
    timestamp: i64,
    now: i64,
)
    requires
        replay_step(seen, max_drift, user, nonce, timestamp, now).0 is Ok,
    ensures
        remembered_or_stale(
            replay_step(seen, max_drift, user, nonce, timestamp, now).1,
            max_drift,
            user,
            nonce,
            timestamp,
            now,
        ),
{
}

/// With a clock that does not run backwards, any later check (of any
/// proof, by any user) keeps a use remembered until it is stale.
pub proof fn lemma_memory_persists(
    seen: Map<NonceKey, i64>,
    max_drift: i64,
    user: Seq<char>,
    nonce: Seq<u8>,
    timestamp: i64,
    now: i64,
    other_user: Seq<char>,
    other_nonce: Seq<u8>,
    other_timestamp: i64,
    later: i64,
)
    requires
        remembered_or_stale(seen, max_drift, user, nonce, timestamp, now),
        now <= later,
    ensures
        remembered_or_stale(
            replay_step(seen, max_drift, other_user, other_nonce, other_timestamp, later).1,
            max_drift,
            user,
            nonce,
            timestamp,
            later,
        ),
{
}

/// A remembered or stale use is refused when presented again, at the same
/// time or later: a proof is accepted at most once per user.
pub proof fn lemma_replay_refused(
    seen: Map<NonceKey, i64>,
    max_drift: i64,
    user: Seq<char>,
    nonce: Seq<u8>,
    timestamp: i64,
    now: i64,
    later: i64,
)
    requires
        remembered_or_stale(seen, max_drift, user, nonce, timestamp, now),
        now <= later,
    ensures
        replay_step(seen, max_drift, user, nonce, timestamp, later).0 is Err,
{
}

/// The remembered uses stay finite through a step, and their number after
/// it: an accepted proof adds one use to those still within the window, a
/// replay leaves those within the window, and a refusal for the time changes
/// nothing.
pub proof fn lemma_step_count(
    seen: Map<NonceKey, i64>,
    max_drift: i64,
    user: Seq<char>,
    nonce: Seq<u8>,
    timestamp: i64,
    now: i64,
)
    requires
        seen.dom().finite(),
    ensures
        ({
            let step = replay_step(seen, max_drift, user, nonce, timestamp, now);
            let kept = prune(seen, now - max_drift);
            &&& step.1.dom().finite()
            &&& kept.dom().finite()
            &&& step.0 is Ok ==> step.1.len() == kept.len() + 1
            &&& step.0 == Err::<(), ReplayError>(ReplayError::ReplayDetected) ==> step.1.len() == kept.len()
            &&& (step.0 matches Err(e) && e !is ReplayDetected) ==> step.1 == seen
        }),
{
    let kept = prune(seen, now - max_drift);
    assert(kept.dom().subset_of(seen.dom()));
    vstd::set_lib::lemma_len_subset(kept.dom(), seen.dom());
    if !kept.contains_key((user, nonce)) {
        assert(kept.insert((user, nonce), timestamp).dom() =~= kept.dom().insert((user, nonce)));
    }
}

/// A protector that remembers nothing yet accepts a proof exactly when its
/// timestamp lies within `max_drift` seconds of `now`; a proof one second
/// older than that is refused as expired by `max_drift + 1` seconds.
pub proof fn lemma_fresh_window(max_drift: i64, user: Seq<char>, nonce: Seq<u8>, timestamp: i64, now: i64)
    requires
        max_drift >= 0,
    ensures
        (replay_step(Map::empty(), max_drift, user, nonce, timestamp, now).0 is Ok) == (now - max_drift <= timestamp
            <= now + max_drift),
        timestamp == now - max_drift - 1 ==> replay_step(Map::empty(), max_drift, user, nonce, timestamp, now).0
            == Err::<(), ReplayError>(
            ReplayError::ProofExpired { age_secs: (max_drift + 1) as i64, max_allowed: max_drift },
        ),
{
}

/// A check presented to replay protection: user, nonce, the proof's
/// timestamp, and the clock's reading.
pub type Check = (Seq<char>, Seq<u8>, i64, i64);

/// The uses remembered after `checks`, in order, starting from `seen`.
pub open spec fn remembered_after(seen: Map<NonceKey, i64>, max_drift: i64, checks: Seq<Check>) -> Map<NonceKey, i64>
    decreases checks.len(),
{
    if checks.len() == 0 {
        seen
    } else {
        let c = checks.last();
        replay_step(remembered_after(seen, max_drift, checks.drop_last()), max_drift, c.0, c.1, c.2, c.3).1
    }
}

/// The answer to check `j` of `checks`, after the ones before it.
pub open spec fn answer_at(seen: Map<NonceKey, i64>, max_drift: i64, checks: Seq<Check>, j: int) -> Result<
    (),
    ReplayError,
> {
    let c = checks[j];
    replay_step(remembered_after(seen, max_drift, checks.take(j)), max_drift, c.0, c.1, c.2, c.3).0
}

/// The clock readings of the checks never decrease.
pub open spec fn clock_monotone(checks: Seq<Check>) -> bool {
    forall|a: int, b: int| 0 <= a <= b < checks.len() ==> #[trigger] checks[a].3 <= #[trigger] checks[b].3
}

/// After an accepted check `i`, the use stays remembered (or stale) through
/// every later check.
proof fn lemma_remembered_through(seen: Map<NonceKey, i64>, max_drift: i64, checks: Seq<Check>, i: int, l: int)
    requires
        0 <= i < l <= checks.len(),
        clock_monotone(checks),
        answer_at(seen, max_drift, checks, i) is Ok,
    ensures
        remembered_or_stale(
            remembered_after(seen, max_drift, checks.take(l)),
            max_drift,
            checks[i].0,
            checks[i].1,
            checks[i].2,
            checks[l - 1].3,
        ),
    decreases l - i,
{
    let c = checks[i];
    assert(checks.take(l).drop_last() =~= checks.take(l - 1));
    assert(checks.take(l).last() == checks[l - 1]);
    if l == i + 1 {
        lemma_accepted_is_remembered(
            remembered_after(seen, max_drift, checks.take(i)),
            max_drift,
            c.0,
            c.1,
            c.2,
            c.3,
        );
    } else {
        lemma_remembered_through(seen, max_drift, checks, i, l - 1);
        let d = checks[l - 1];
        assert(checks[l - 2].3 <= checks[l - 1].3);
        lemma_memory_persists(
            remembered_after(seen, max_drift, checks.take(l - 1)),
            max_drift,
            c.0,
            c.1,
            c.2,
            checks[l - 2].3,
            d.0,
            d.1,
            d.2,
            d.3,
        );
    }
}

/// Over any sequence of checks with a clock that does not run backwards, a
/// proof accepted once is never accepted again, whatever checks come in
/// between: presented again by the same user, it is refused as a replay
/// while it is within the window, and as expired after it.
pub proof fn lemma_never_accepted_twice(seen: Map<NonceKey, i64>, max_drift: i64, checks: Seq<Check>, i: int, j: int)
    requires
        0 <= i < j < checks.len(),
        clock_monotone(checks),
        answer_at(seen, max_drift, checks, i) is Ok,
        checks[j].0 == checks[i].0,
        checks[j].1 == checks[i].1,
        checks[j].2 == checks[i].2,
    ensures
        answer_at(seen, max_drift, checks, j) == if checks[j].3 - checks[j].2 <= max_drift {
            Err::<(), ReplayError>(ReplayError::ReplayDetected)
        } else {
            Err::<(), ReplayError>(
                ReplayError::ProofExpired {
                    age_secs: (checks[j].3 - checks[j].2) as i64,
                    max_allowed: max_drift,
                },
            )
        },
{
    lemma_remembered_through(seen, max_drift, checks, i, j);
    assert(checks[i].3 <= checks[j - 1].3);
    assert(checks[j - 1].3 <= checks[j].3);
    assert(checks[i].3 <= checks[j].3);
}

/// What one check answers, for every remembered map: a proof is refused
/// exactly when its timestamp lies outside the window around `now`, or its
/// (user, nonce) is among the uses still within the window; otherwise it is
/// accepted, and the uses remembered afterwards are those still within the
/// window plus this one. However many uses are remembered, a fresh use is
/// accepted.
pub proof fn lemma_step_accepts_unseen(
    seen: Map<NonceKey, i64>,
    max_drift: i64,
    user: Seq<char>,
    nonce: Seq<u8>,
    timestamp: i64,
    now: i64,
)
    ensures
        (replay_step(seen, max_drift, user, nonce, timestamp, now).0 is Ok) <==> (-max_drift <= now - timestamp
            <= max_drift && !(seen.contains_key((user, nonce)) && seen[(user, nonce)] >= now - max_drift)),
        replay_step(seen, max_drift, user, nonce, timestamp, now).0 is Ok ==> replay_step(
            seen,
            max_drift,
            user,
            nonce,
            timestamp,
            now,
        ).1 == Map::new(
            |k: NonceKey| k == (user, nonce) || (seen.contains_key(k) && seen[k] >= now - max_drift),
            |k: NonceKey|
                if k == (user, nonce) {
                    timestamp
                } else {
                    seen[k]
                },
        ),
        (replay_step(seen, max_drift, user, nonce, timestamp, now).0 == Err::<(), ReplayError>(
            ReplayError::ReplayDetected,
        )) <==> (-max_drift <= now - timestamp <= max_drift && seen.contains_key((user, nonce)) && seen[(user, nonce)]
            >= now - max_drift),
{
    let step = replay_step(seen, max_drift, user, nonce, timestamp, now);
    if step.0 is Ok {
        assert(step.1 =~= Map::new(
            |k: NonceKey| k == (user, nonce) || (seen.contains_key(k) && seen[k] >= now - max_drift),
            |k: NonceKey|
                if k == (user, nonce) {
                    timestamp
                } else {
                    seen[k]
                },
        ));
    }
}

} // verus!
