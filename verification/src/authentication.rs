//! The bank verifier's decision on an authentication request, shared by the
//! TCP server and the Kafka worker, and the prover's side of a request.

use vstd::prelude::*;

use crate::curve::{be_value, generator_times, identity_point, is_point, is_scalar, scalar_of};
use crate::protocol::{AuthRequest, AuthResponse, KafkaAuthRequest, KafkaAuthResponse};
use crate::replay::{replay_error_text, replay_step, step_fits, ReplayError, ReplayProtector};
use crate::text::{concat, text};
use crate::zkp_core_engine::{
    challenge_digest, committed_with, honestly_generated, proof_outcome, response, is_serialization_error, verdict, Proof, UserPublicKey, UserSecretKey, Verdict, ZkpEngine,
    ZkpError,
};

verus! {

/// What the bank's registry answered for the requesting user.
pub enum RegistryLookup {
    /// The user is registered with this public key.
    Registered(UserPublicKey),
    /// The user is not registered.
    NotRegistered,
    /// The registry could not be read; the text of its error.
    Failed(String),
}

/// The bank's decision on a request.
pub enum Decision {
    NotRegistered,
    LookupFailed(String),
    /// The request's public key is not the registered one.
    KeyMismatch,
    /// Refused by replay protection.
    Refused(ReplayError),
    /// The proof verifies.
    Verified,
    /// The proof does not verify.
    ProofRejected,
    /// The proof's encoding is invalid.
    VerificationError(ZkpError),
}

/// The decision that `decide` comes to, given that it does not abort.
pub open spec fn decision_matches(
    lookup: RegistryLookup,
    public_key: Seq<u8>,
    proof: Proof,
    before: ReplayProtector,
    after: ReplayProtector,
    now: i64,
    user: Seq<char>,
    d: Option<Decision>,
) -> bool {
    &&& after.max_drift() == before.max_drift()
    &&& match lookup {
        RegistryLookup::NotRegistered => d matches Some(Decision::NotRegistered) && after.seen() == before.seen(),
        RegistryLookup::Failed(m) => (d matches Some(Decision::LookupFailed(t)) && t@ == m@) && after.seen()
            == before.seen(),
        RegistryLookup::Registered(pk) => if public_key != pk@ {
            d matches Some(Decision::KeyMismatch) && after.seen() == before.seen()
        } else if !step_fits(before.max_drift(), proof.timestamp, now) {
            d is None && after.seen() == before.seen()
        } else {
            let step = replay_step(before.seen(), before.max_drift(), user, proof.nonce@, proof.timestamp, now);
            &&& after.seen() == step.1
            &&& match step.0 {
                Err(e) => d == Some(Decision::Refused(e)),
                Ok(()) => match verdict(pk@, proof) {
                    Verdict::Aborts => d is None,
                    Verdict::MalformedCommitment => d matches Some(Decision::VerificationError(e))
                        && is_serialization_error(Err::<(), ZkpError>(e), "Invalid R point length/format"@),
                    Verdict::InvalidEncoding => d matches Some(Decision::VerificationError(e))
                        && is_serialization_error(Err::<(), ZkpError>(e), "Invalid point encoding"@),
                    Verdict::Decided(true) => d matches Some(Decision::Verified),
                    Verdict::Decided(false) => d matches Some(Decision::ProofRejected),
                },
            }
        },
    }
}

/// Decides a request by `user_id` presenting `public_key` and `proof` at
/// Unix time `now`: the user must be registered with that key, the proof
/// must pass replay protection, then verify. `None` where the check cannot
/// run to its end (the time arithmetic leaves `i64`, or verification aborts).
pub fn decide(
    lookup: &RegistryLookup,
    user_id: &str,
    public_key: &Vec<u8>,
    proof: &Proof,
    protector: &mut ReplayProtector,
    now: i64,
) -> (d: Option<Decision>)
    ensures
        decision_matches(*lookup, public_key@, *proof, *old(protector), *final(protector), now, user_id@, d),
        lookup matches RegistryLookup::Registered(pk) ==> (forall|x: Seq<u8>|
            is_scalar(x) && pk@ == #[trigger] generator_times(x) && honestly_generated(x, pk@, *proof)
                && proof.r_point@ != identity_point() && public_key@ == pk@ && step_fits(
                old(protector).max_drift(),
                proof.timestamp,
                now,
            ) && replay_step(
                old(protector).seen(),
                old(protector).max_drift(),
                user_id@,
                proof.nonce@,
                proof.timestamp,
                now,
            ).0 is Ok ==> d matches Some(Decision::Verified)),
        lookup matches RegistryLookup::Registered(pk) ==> (forall|x: Seq<u8>, k: Seq<u8>|
            #![trigger generator_times(x), committed_with(pk@, *proof, k)]
            is_scalar(x) && pk@ == generator_times(x) && committed_with(pk@, *proof, k) && proof.r_point@
                != identity_point() && is_scalar(proof.s_scalar@) && public_key@ == pk@ && step_fits(
                old(protector).max_drift(),
                proof.timestamp,
                now,
            ) && replay_step(
                old(protector).seen(),
                old(protector).max_drift(),
                user_id@,
                proof.nonce@,
                proof.timestamp,
                now,
            ).0 is Ok ==> d == Some(
                if proof.s_scalar@ == response(
                    k,
                    x,
                    challenge_digest(proof.r_point@, pk@, proof.timestamp, proof.nonce@),
                ) {
                    Decision::Verified
                } else {
                    Decision::ProofRejected
                },
            )),
{
    match lookup {
        RegistryLookup::NotRegistered => Some(Decision::NotRegistered),
        RegistryLookup::Failed(m) => Some(Decision::LookupFailed(m.clone())),
        RegistryLookup::Registered(pk) => {
            let registered = pk.to_bytes();
            if !bytes_equal(public_key.as_slice(), registered.as_slice()) {
                return Some(Decision::KeyMismatch);
            }
            if !protector.step_fits_at(proof.timestamp, now) {
                return None;
            }
            match protector.check_and_record_at(user_id, proof, now) {
                Err(e) => Some(Decision::Refused(e)),
                Ok(()) => match ZkpEngine::try_verify(pk, proof) {
                    None => None,
                    Some(Ok(true)) => Some(Decision::Verified),
                    Some(Ok(false)) => Some(Decision::ProofRejected),
                    Some(Err(e)) => Some(Decision::VerificationError(e)),
                },
            }
        },
    }
}

/// Whether two byte strings are equal.
pub fn bytes_equal(a: &[u8], b: &[u8]) -> (eq: bool)
    ensures
        eq == (a@ == b@),
{
    if a.len() != b.len() {
        return false;
    }
    let n = a.len();
    let mut i: usize = 0;
    while i < n
        invariant
            n == a@.len(),
            n == b@.len(),
            i <= n,
            forall|j: int| 0 <= j < i ==> a@[j] == b@[j],
        decreases n - i,
    {
        if a[i] != b[i] {
            return false;
        }
        i = i + 1;
    }
    assert(a@ =~= b@);
    true
}

/// The text of a verification error, for the errors that verification gives.
pub open spec fn verification_error_text(e: ZkpError) -> Seq<char> {
    match e {
        ZkpError::SerializationError(m) => "Serialization failed: "@ + m@,
        ZkpError::MathError => "Mathematical inconsistency during proof generation."@,
        ZkpError::InvalidProof => "Verification failed: Invalid proof."@,
        ZkpError::IoError(_) => Seq::empty(),
    }
}

/// The outcome and message that the TCP verifier sends for a decision.
pub open spec fn tcp_outcome(d: Decision, user: Seq<char>) -> (bool, Seq<char>) {
    match d {
        Decision::NotRegistered => (false, "Authentication failed: User '"@ + user + "' is not registered with bank"@),
        Decision::LookupFailed(m) => (false, "Storage lookup error: "@ + m@),
        Decision::KeyMismatch => (false, "Authentication failed: Public key does not match bank records"@),
        Decision::Refused(e) => (false, "Security rejection: "@ + replay_error_text(e)),
        Decision::Verified => (true, "Identity verified successfully for user '"@ + user + "'."@),
        Decision::ProofRejected => (false, "Verification failed: Mathematical proof check did not match public key."@),
        Decision::VerificationError(e) => (false, "Cryptographic verification error: "@ + verification_error_text(e)),
    }
}

/// The outcome and message that the Kafka verifier publishes for a decision.
pub open spec fn queued_outcome(d: Decision, user: Seq<char>) -> (bool, Seq<char>) {
    match d {
        Decision::NotRegistered => (false, "Authentication failed: User '"@ + user + "' is not registered with bank"@),
        Decision::LookupFailed(m) => (false, "Database storage error: "@ + m@),
        Decision::KeyMismatch => (false, "Authentication failed: Public key does not match bank records"@),
        Decision::Refused(e) => (false, "Security rejection: "@ + replay_error_text(e)),
        Decision::Verified => (true, "ZKP Identity verified successfully for '"@ + user + "'"@),
        Decision::ProofRejected => (false, "Verification failed: Mathematical check failed"@),
        Decision::VerificationError(e) => (false, "Cryptographic math error: "@ + verification_error_text(e)),
    }
}

/// The text of a verification error (no I/O error comes out of a decision).
fn verification_error_message(e: &ZkpError) -> (m: String)
    requires
        !(e is IoError),
    ensures
        m@ == verification_error_text(*e),
{
    e.message()
}

/// `user`, quoted in `prefix ... suffix`.
fn quoted(prefix: &str, user: &str, suffix: &str) -> (m: String)
    ensures
        m@ == prefix@ + user@ + suffix@,
{
    let mut m = concat(prefix, user);
    m.append(suffix);
    m
}

/// The message of a decision, as the TCP verifier words it.
pub fn tcp_message(d: &Decision, user_id: &str) -> (r: (bool, String))
    requires
        !(d matches Decision::VerificationError(e) && e is IoError),
    ensures
        (r.0, r.1@) == tcp_outcome(*d, user_id@),
{
    match d {
        Decision::NotRegistered => (false, quoted("Authentication failed: User '", user_id, "' is not registered with bank")),
        Decision::LookupFailed(m) => (false, concat("Storage lookup error: ", m.as_str())),
        Decision::KeyMismatch => (false, text("Authentication failed: Public key does not match bank records")),
        Decision::Refused(e) => (false, concat("Security rejection: ", e.message().as_str())),
        Decision::Verified => (true, quoted("Identity verified successfully for user '", user_id, "'.")),
        Decision::ProofRejected => (false, text("Verification failed: Mathematical proof check did not match public key.")),
        Decision::VerificationError(e) => (
            false,
            concat("Cryptographic verification error: ", verification_error_message(e).as_str()),
        ),
    }
}

/// The message of a decision, as the Kafka verifier words it.
pub fn queued_message(d: &Decision, user_id: &str) -> (r: (bool, String))
    requires
        !(d matches Decision::VerificationError(e) && e is IoError),
    ensures
        (r.0, r.1@) == queued_outcome(*d, user_id@),
{
    match d {
        Decision::NotRegistered => (false, quoted("Authentication failed: User '", user_id, "' is not registered with bank")),
        Decision::LookupFailed(m) => (false, concat("Database storage error: ", m.as_str())),
        Decision::KeyMismatch => (false, text("Authentication failed: Public key does not match bank records")),
        Decision::Refused(e) => (false, concat("Security rejection: ", e.message().as_str())),
        Decision::Verified => (true, quoted("ZKP Identity verified successfully for '", user_id, "'")),
        Decision::ProofRejected => (false, text("Verification failed: Mathematical check failed")),
        Decision::VerificationError(e) => (false, concat("Cryptographic math error: ", verification_error_message(e).as_str())),
    }
}

/// The TCP verifier's answer to `request` at Unix time `now`: `None` where
/// the check cannot run to its end.
pub fn answer_request_at(lookup: &RegistryLookup, request: &AuthRequest, protector: &mut ReplayProtector, now: i64) -> (res:
    Option<AuthResponse>)
    ensures
        exists|d: Option<Decision>|
            decision_matches(
                *lookup,
                request.public_key@,
                request.proof,
                *old(protector),
                *final(protector),
                now,
                request.user_id@,
                d,
            ) && match d {
                None => res is None,
                Some(d) => res matches Some(r) && r.user_id@ == request.user_id@ && (r.success, r.message@)
                    == tcp_outcome(d, request.user_id@),
            },
{
    let d = decide(lookup, request.user_id.as_str(), &request.public_key, &request.proof, protector, now);
    match d {
        None => None,
        Some(d) => {
            let (success, message) = tcp_message(&d, request.user_id.as_str());
            Some(AuthResponse { user_id: request.user_id.clone(), success, message })
        },
    }
}

/// The TCP verifier's answer to `request` at the current time.
pub fn answer_request(lookup: &RegistryLookup, request: &AuthRequest, protector: &mut ReplayProtector) -> (res: Option<
    AuthResponse,
>)
    ensures
        exists|now: i64, d: Option<Decision>|
            crate::clock::is_seconds_reading(now as int) && decision_matches(
                *lookup,
                request.public_key@,
                request.proof,
                *old(protector),
                *final(protector),
                now,
                request.user_id@,
                d,
            ) && match d {
                None => res is None,
                Some(d) => res matches Some(r) && r.user_id@ == request.user_id@ && (r.success, r.message@)
                    == tcp_outcome(d, request.user_id@),
            },
{
    let now = crate::clock::unix_time_now();
    answer_request_at(lookup, request, protector, now)
}

/// The Kafka verifier's answer to `request` at Unix time `now`, stamped with
/// the current time: `None` where the check cannot run to its end.
pub fn answer_queued_request_at(
    lookup: &RegistryLookup,
    request: &KafkaAuthRequest,
    protector: &mut ReplayProtector,
    now: i64,
) -> (res: Option<KafkaAuthResponse>)
    ensures
        exists|d: Option<Decision>|
            decision_matches(
                *lookup,
                request.public_key@,
                request.proof,
                *old(protector),
                *final(protector),
                now,
                request.user_id@,
                d,
            ) && match d {
                None => res is None,
                Some(d) => res matches Some(r) && r.request_id@ == request.request_id@ && r.user_id@
                    == request.user_id@ && (r.success, r.message@) == queued_outcome(d, request.user_id@),
            },
{
    let d = decide(lookup, request.user_id.as_str(), &request.public_key, &request.proof, protector, now);
    match d {
        None => None,
        Some(d) => {
            let (success, message) = queued_message(&d, request.user_id.as_str());
            Some(KafkaAuthResponse::new(request.request_id.as_str(), request.user_id.as_str(), success, message.as_str()))
        },
    }
}

/// The Kafka verifier's answer to `request` at the current time.
pub fn answer_queued_request(lookup: &RegistryLookup, request: &KafkaAuthRequest, protector: &mut ReplayProtector) -> (res:
    Option<KafkaAuthResponse>)
    ensures
        exists|now: i64, d: Option<Decision>|
            crate::clock::is_seconds_reading(now as int) && decision_matches(
                *lookup,
                request.public_key@,
                request.proof,
                *old(protector),
                *final(protector),
                now,
                request.user_id@,
                d,
            ) && match d {
                None => res is None,
                Some(d) => res matches Some(r) && r.request_id@ == request.request_id@ && r.user_id@
                    == request.user_id@ && (r.success, r.message@) == queued_outcome(d, request.user_id@),
            },
{
    let now = crate::clock::unix_time_now();
    answer_queued_request_at(lookup, request, protector, now)
}

/// A response with its last byte increased by one, wrapping (an empty
/// response stays empty).
pub open spec fn tampered(s: Seq<u8>) -> Seq<u8> {
    if s.len() == 0 {
        s
    } else {
        s.update(s.len() - 1, vstd::wrapping::u8_specs::wrapping_add(s.last(), 1))
    }
}

/// A tampered response differs from the response it was made from.
pub proof fn lemma_tampered_differs(s: Seq<u8>)
    requires
        s.len() > 0,
    ensures
        tampered(s) != s,
{
    let i = s.len() - 1;
    assert(tampered(s)[i] != s[i]);
}

/// Corrupts the response of a proof: its last byte is increased by one,
/// wrapping.
pub fn tamper_proof(proof: &mut Proof)
    ensures
        final(proof).r_point@ == old(proof).r_point@,
        final(proof).timestamp == old(proof).timestamp,
        final(proof).nonce@ == old(proof).nonce@,
        final(proof).s_scalar@ == tampered(old(proof).s_scalar@),
{
    let n = proof.s_scalar.len();
    if n > 0 {
        let last = proof.s_scalar[n - 1];
        proof.s_scalar.set(n - 1, last.wrapping_add(1));
    }
}

/// What the prover prepares with secret `x` at time `t` from commitment
/// scalar `k` and nonce `n`: the proof `(G k, k + e x, t, n)` for the key
/// `G x`, its response tampered with where asked, or `MathError` where the
/// challenge digest `e` is no scalar.
pub open spec fn prepared(x: Seq<u8>, t: i64, k: Seq<u8>, n: Seq<u8>, tamper: bool, res: Result<Proof, ZkpError>) -> bool {
    let r = generator_times(k);
    let e = challenge_digest(r, generator_times(x), t, n);
    if is_scalar(e) {
        res matches Ok(p) && p.r_point@ == r && is_point(r) && p.timestamp == t && p.nonce@ == n && p.s_scalar@ == (if tamper {
            tampered(response(k, x, e))
        } else {
            response(k, x, e)
        })
    } else {
        res matches Err(err) && err is MathError
    }
}

/// The proof that a result carries.
pub open spec fn proof_of_pair(res: Result<(UserPublicKey, Proof), ZkpError>) -> Result<Proof, ZkpError> {
    match res {
        Ok((_, p)) => Ok(p),
        Err(e) => Err(e),
    }
}

/// The proof that a result carries.
pub open spec fn proof_of_request(res: Result<AuthRequest, ZkpError>) -> Result<Proof, ZkpError> {
    match res {
        Ok(r) => Ok(r.proof),
        Err(e) => Err(e),
    }
}

/// The proof that a result carries.
pub open spec fn proof_of_queued_request(res: Result<KafkaAuthRequest, ZkpError>) -> Result<Proof, ZkpError> {
    match res {
        Ok(r) => Ok(r.proof),
        Err(e) => Err(e),
    }
}

/// A proof prepared with tampering carries a commitment `G k` and a response
/// other than `k + e x`: wherever that response is still a canonical scalar
/// (and the commitment not the identity), verification refuses it.
pub proof fn lemma_tampered_proof_refused(x: Seq<u8>, t: i64, k: Seq<u8>, n: Seq<u8>, p: Proof)
    requires
        is_scalar(k),
        prepared(x, t, k, n, true, Ok(p)),
    ensures
        committed_with(generator_times(x), p, k),
        p.s_scalar@ != response(k, x, challenge_digest(p.r_point@, generator_times(x), p.timestamp, p.nonce@)),
{
    let e = challenge_digest(p.r_point@, generator_times(x), p.timestamp, p.nonce@);
    crate::curve::lemma_scalar_of(be_value(k) + be_value(scalar_of(be_value(e) * be_value(x))));
    lemma_tampered_differs(response(k, x, e));
}

/// A proof of knowledge of `secret` for the current time, and the public key
/// it is made for; with `tamper`, the proof's response is corrupted.
pub fn prepare_proof(secret: &UserSecretKey, tamper: bool) -> (res: Result<(UserPublicKey, Proof), ZkpError>)
    ensures
        res matches Ok((pk, _)) ==> pk@ == generator_times(secret@) && is_scalar(secret@),
        exists|t: i64, k: Seq<u8>, n: Seq<u8>|
            crate::clock::is_seconds_reading(t as int) && is_scalar(k) && n.len() == 16 && #[trigger] prepared(
                secret@,
                t,
                k,
                n,
                tamper,
                proof_of_pair(res),
            ),
        !tamper ==> (res matches Ok((pk, p)) ==> honestly_generated(secret@, pk@, p)),
{
    let public_key = secret.public_key();
    let generated = ZkpEngine::generate_proof(secret, &public_key);
    let ghost w = choose|t: i64, k: Seq<u8>, n: Seq<u8>|
        crate::clock::is_seconds_reading(t as int) && is_scalar(k) && n.len() == 16 && #[trigger] proof_outcome(
            secret@,
            public_key@,
            t,
            k,
            n,
            generated,
        );
    match generated {
        Err(e) => {
            let res = Err(e);
            assert(prepared(secret@, w.0, w.1, w.2, tamper, proof_of_pair(res)));
            res
        },
        Ok(p) => {
            let mut proof = p;
            if tamper {
                tamper_proof(&mut proof);
            }
            let res = Ok((public_key, proof));
            assert(prepared(secret@, w.0, w.1, w.2, tamper, proof_of_pair(res)));
            res
        },
    }
}

/// The request that proves `user_id`'s identity with `secret`; with
/// `tamper`, the proof's response is corrupted.
pub fn build_auth_request(user_id: &str, secret: &UserSecretKey, tamper: bool) -> (res: Result<AuthRequest, ZkpError>)
    ensures
        res matches Ok(r) ==> r.user_id@ == user_id@ && r.public_key@ == generator_times(secret@) && is_scalar(
            secret@,
        ),
        exists|t: i64, k: Seq<u8>, n: Seq<u8>|
            crate::clock::is_seconds_reading(t as int) && is_scalar(k) && n.len() == 16 && #[trigger] prepared(
                secret@,
                t,
                k,
                n,
                tamper,
                proof_of_request(res),
            ),
        !tamper ==> (res matches Ok(r) ==> honestly_generated(secret@, r.public_key@, r.proof)),
{
    let (public_key, proof) = match prepare_proof(secret, tamper) {
        Ok(t) => t,
        Err(e) => return Err(e),
    };
    Ok(AuthRequest { user_id: String::from_str(user_id), public_key: public_key.to_bytes(), proof })
}

/// The queued request that proves `user_id`'s identity with `secret`, under
/// a fresh request id; with `tamper`, the proof's response is corrupted.
pub fn build_queued_request(user_id: &str, secret: &UserSecretKey, tamper: bool) -> (res: Result<KafkaAuthRequest, ZkpError>)
    ensures
        res matches Ok(r) ==> r.user_id@ == user_id@ && r.public_key@ == generator_times(secret@) && is_scalar(
            secret@,
        ),
        exists|t: i64, k: Seq<u8>, n: Seq<u8>|
            crate::clock::is_seconds_reading(t as int) && is_scalar(k) && n.len() == 16 && #[trigger] prepared(
                secret@,
                t,
                k,
                n,
                tamper,
                proof_of_queued_request(res),
            ),
        !tamper ==> (res matches Ok(r) ==> honestly_generated(secret@, r.public_key@, r.proof)),
{
    let (public_key, proof) = match prepare_proof(secret, tamper) {
        Ok(t) => t,
        Err(e) => return Err(e),
    };
    Ok(KafkaAuthRequest::new(user_id, public_key.to_bytes(), proof))
}

/// A request that was verified once is not verified again: presented anew,
/// at the same time or later, it is refused by replay protection (or the
/// check cannot run).
pub proof fn lemma_verified_request_not_replayable(
    lookup: RegistryLookup,
    public_key: Seq<u8>,
    proof: Proof,
    user: Seq<char>,
    p0: ReplayProtector,
    p1: ReplayProtector,
    p2: ReplayProtector,
    now: i64,
    later: i64,
    second: Option<Decision>,
)
    requires
        decision_matches(lookup, public_key, proof, p0, p1, now, user, Some(Decision::Verified)),
        decision_matches(lookup, public_key, proof, p1, p2, later, user, second),
        now <= later,
    ensures
        second is None || second matches Some(Decision::Refused(_)),
        step_fits(p1.max_drift(), proof.timestamp, later) ==> second == Some(
            Decision::Refused(
                if later - proof.timestamp <= p1.max_drift() {
                    ReplayError::ReplayDetected
                } else {
                    ReplayError::ProofExpired {
                        age_secs: (later - proof.timestamp) as i64,
                        max_allowed: p1.max_drift(),
                    }
                },
            ),
        ),
{
    if let RegistryLookup::Registered(pk) = lookup {
        crate::replay::lemma_accepted_is_remembered(p0.seen(), p0.max_drift(), user, proof.nonce@, proof.timestamp, now);
        crate::replay::lemma_replay_refused(p1.seen(), p1.max_drift(), user, proof.nonce@, proof.timestamp, now, later);
    }
}

/// A request succeeds exactly when the user is registered with the
/// request's key, replay protection accepts the proof and the proof
/// verifies; both verifiers agree on the outcome, and replay protection is
/// left untouched unless the user is registered with that key.
pub proof fn lemma_success_iff(
    lookup: RegistryLookup,
    public_key: Seq<u8>,
    proof: Proof,
    user: Seq<char>,
    p0: ReplayProtector,
    p1: ReplayProtector,
    now: i64,
    d: Decision,
)
    requires
        decision_matches(lookup, public_key, proof, p0, p1, now, user, Some(d)),
    ensures
        tcp_outcome(d, user).0 == queued_outcome(d, user).0,
        tcp_outcome(d, user).0 <==> (lookup matches RegistryLookup::Registered(pk) && public_key == pk@
            && replay_step(p0.seen(), p0.max_drift(), user, proof.nonce@, proof.timestamp, now).0 is Ok && verdict(
            pk@,
            proof,
        ) == Verdict::Decided(true)),
        !(lookup matches RegistryLookup::Registered(pk) && public_key == pk@) ==> p1.seen() == p0.seen(),
{
}

/// The answer to a frame that could not be read: from an unknown user,
/// refused, with the reading error's text.
pub fn malformed_packet_response(e: &ZkpError) -> (r: AuthResponse)
    ensures
        r.user_id@ == "unknown"@,
        !r.success,
        !(e is IoError) ==> r.message@ == "Malformed packet: "@ + verification_error_text(*e),
        e matches ZkpError::IoError(io) ==> exists|t: String|
            vstd::string::to_string_from_display_ensures::<std::io::Error>(io, t) && r.message@
                == "Malformed packet: "@ + ("Network/IO error: "@ + t@),
{
    AuthResponse { user_id: text("unknown"), success: false, message: concat("Malformed packet: ", e.message().as_str()) }
}

/// An unregistered user is refused, whatever the request.
pub proof fn lemma_unregistered_refused(
    public_key: Seq<u8>,
    proof: Proof,
    user: Seq<char>,
    p0: ReplayProtector,
    p1: ReplayProtector,
    now: i64,
    d: Option<Decision>,
)
    requires
        decision_matches(RegistryLookup::NotRegistered, public_key, proof, p0, p1, now, user, d),
    ensures
        d matches Some(Decision::NotRegistered),
        tcp_outcome(d->0, user).0 == false,
        queued_outcome(d->0, user).0 == false,
        p1.seen() == p0.seen(),
{
}

} // verus!
