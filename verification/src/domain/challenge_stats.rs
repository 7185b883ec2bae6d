//! Per-challenge statistics: a pure value that every attempt replaces with an
//! updated copy.

use vstd::prelude::*;
use crate::time::{Duration, Timestamp};
use crate::domain::mastery_tier::{MasteryTier, tier_of};

verus! {

/// What an integrity check found out about a stored result.
#[derive(Debug, Clone, Copy, PartialEq, Eq, Structural)]
pub enum VerificationStatus {
    /// The result carries no signature: it was stored before results were signed.
    Legacy,
    /// The result carries a signature that could not be checked.
    Unverified,
    /// The signature, and the recording where one was given, match the result.
    Verified,
    /// The signature does not match the result: the stored data was changed.
    SignatureFailed,
    /// The recording does not match its stored hash: the file was changed.
    RecordingHashFailed,
}

/// Statistics for a single challenge.
#[derive(Debug, PartialEq, Eq)]
pub struct ChallengeStats {
    challenge_id: String,
    completed: bool,
    best_time: Option<Duration>,
    best_keystrokes: Option<u32>,
    first_completed_at: Option<Timestamp>,
    last_attempted_at: Option<Timestamp>,
    attempt_count: u32,
    recording_hash: Option<String>,
    signature: Option<String>,
    signature_version: Option<u32>,
    verification_status: VerificationStatus,
}

/// The mathematical content of a [`ChallengeStats`].
pub struct ChallengeStatsView {
    pub challenge_id: Seq<char>,
    pub completed: bool,
    pub best_time: Option<Duration>,
    pub best_keystrokes: Option<u32>,
    pub first_completed_at: Option<Timestamp>,
    pub last_attempted_at: Option<Timestamp>,
    pub attempt_count: nat,
    pub recording_hash: Option<Seq<char>>,
    pub signature: Option<Seq<char>>,
    pub signature_version: Option<u32>,
    pub verification_status: VerificationStatus,
}

/// One attempt at a challenge, as `record_attempt` takes it.
pub struct Attempt {
    pub completed: bool,
    pub time: Duration,
    pub keystrokes: Option<u32>,
    pub at: Timestamp,
}

/// The content of an optional string.
pub open spec fn text_of(s: Option<String>) -> Option<Seq<char>> {
    match s {
        Some(t) => Some(t@),
        None => None,
    }
}

impl ChallengeStatsView {
    /// The statistics of a challenge that was never attempted.
    pub open spec fn unattempted(challenge_id: Seq<char>) -> ChallengeStatsView {
        ChallengeStatsView {
            challenge_id,
            completed: false,
            best_time: None,
            best_keystrokes: None,
            first_completed_at: None,
            last_attempted_at: None,
            attempt_count: 0,
            recording_hash: None,
            signature: None,
            signature_version: None,
            verification_status: VerificationStatus::Legacy,
        }
    }

    /// Whether `time` beats the best time so far: there is none yet, or `time`
    /// is strictly shorter.
    pub open spec fn improves_time(self, time: Duration) -> bool {
        self.best_time is None || time.lt(self.best_time->0)
    }

    /// Whether `keystrokes` beats the best count so far: a count is given, and
    /// there is none yet or the given one is strictly lower.
    pub open spec fn improves_keystrokes(self, keystrokes: Option<u32>) -> bool {
        keystrokes is Some && (self.best_keystrokes is None || keystrokes->0
            < self.best_keystrokes->0)
    }

    /// The statistics after one more attempt.
    pub open spec fn record_attempt(
        self,
        completed: bool,
        time: Duration,
        keystrokes: Option<u32>,
        attempted_at: Timestamp,
    ) -> ChallengeStatsView {
        ChallengeStatsView {
            completed: self.completed || completed,
            best_time: if completed && self.improves_time(time) {
                Some(time)
            } else {
                self.best_time
            },
            best_keystrokes: if completed && self.improves_keystrokes(keystrokes) {
                keystrokes
            } else {
                self.best_keystrokes
            },
            first_completed_at: if completed && self.first_completed_at is None {
                Some(attempted_at)
            } else {
                self.first_completed_at
            },
            last_attempted_at: Some(attempted_at),
            attempt_count: self.attempt_count + 1,
            ..self
        }
    }

    /// The statistics after one more attempt, given as a value.
    pub open spec fn record(self, attempt: Attempt) -> ChallengeStatsView {
        self.record_attempt(attempt.completed, attempt.time, attempt.keystrokes, attempt.at)
    }

    /// The statistics after a run of attempts, the first of them first.
    pub open spec fn replay(self, attempts: Seq<Attempt>) -> ChallengeStatsView
        decreases attempts.len(),
    {
        if attempts.len() == 0 {
            self
        } else {
            self.replay(attempts.drop_last()).record(attempts.last())
        }
    }

    /// The mastery tier: none before the first completion, then the grade of
    /// the best time and keystroke count.
    pub open spec fn mastery_tier(self) -> Option<MasteryTier> {
        if !self.completed {
            None
        } else if self.best_time is Some {
            Some(tier_of(self.best_time->0, self.best_keystrokes))
        } else {
            Some(MasteryTier::Bronze)
        }
    }

    /// The statistics with integrity data attached.
    pub open spec fn with_integrity(
        self,
        recording_hash: Seq<char>,
        signature: Seq<char>,
        signature_version: u32,
    ) -> ChallengeStatsView {
        ChallengeStatsView {
            recording_hash: Some(recording_hash),
            signature: Some(signature),
            signature_version: Some(signature_version),
            verification_status: VerificationStatus::Unverified,
            ..self
        }
    }

    /// Whether both a signature and a recording hash are stored.
    pub open spec fn has_integrity_data(self) -> bool {
        self.signature is Some && self.recording_hash is Some
    }

    /// The fields agree with each other: a challenge is completed exactly when
    /// it has a best time and a first completion, a best keystroke count only
    /// comes with a completion, and an attempt has a time exactly when the
    /// challenge was attempted at all.
    pub open spec fn wf(self) -> bool {
        &&& self.completed <==> self.best_time is Some
        &&& self.completed <==> self.first_completed_at is Some
        &&& self.best_keystrokes is Some ==> self.completed
        &&& self.completed ==> self.attempt_count >= 1
        &&& self.attempt_count >= 1 <==> self.last_attempted_at is Some
    }
}

impl View for ChallengeStats {
    type V = ChallengeStatsView;

    closed spec fn view(&self) -> ChallengeStatsView {
        ChallengeStatsView {
            challenge_id: self.challenge_id@,
            completed: self.completed,
            best_time: self.best_time,
            best_keystrokes: self.best_keystrokes,
            first_completed_at: self.first_completed_at,
            last_attempted_at: self.last_attempted_at,
            attempt_count: self.attempt_count as nat,
            recording_hash: text_of(self.recording_hash),
            signature: text_of(self.signature),
            signature_version: self.signature_version,
            verification_status: self.verification_status,
        }
    }
}

/// A copy of an optional string.
fn copy_text(s: &Option<String>) -> (r: Option<String>)
    ensures
        text_of(r) == text_of(*s),
{
    match s {
        Some(t) => Some(t.clone()),
        None => None,
    }
}

/// The text of an optional string, borrowed.
fn borrow_text(s: &Option<String>) -> (r: Option<&str>)
    ensures
        r is Some <==> *s is Some,
        r is Some ==> r->0@ == s->0@,
{
    match s {
        Some(t) => Some(t.as_str()),
        None => None,
    }
}

impl Clone for ChallengeStats {
    fn clone(&self) -> (r: Self)
        ensures
            r@ == self@,
    {
        ChallengeStats {
            challenge_id: self.challenge_id.clone(),
            completed: self.completed,
            best_time: self.best_time,
            best_keystrokes: self.best_keystrokes,
            first_completed_at: self.first_completed_at,
            last_attempted_at: self.last_attempted_at,
            attempt_count: self.attempt_count,
            recording_hash: copy_text(&self.recording_hash),
            signature: copy_text(&self.signature),
            signature_version: self.signature_version,
            verification_status: self.verification_status,
        }
    }
}

impl ChallengeStats {
    /// Statistics for a challenge that was never attempted.
    pub fn new(challenge_id: String) -> (stats: Self)
        ensures
            stats@ == ChallengeStatsView::unattempted(challenge_id@),
            stats@.wf(),
    {
        ChallengeStats {
            challenge_id,
            completed: false,
            best_time: None,
            best_keystrokes: None,
            first_completed_at: None,
            last_attempted_at: None,
            attempt_count: 0,
            recording_hash: None,
            signature: None,
            signature_version: None,
            verification_status: VerificationStatus::Legacy,
        }
    }

    /// Statistics for a challenge completed at its first attempt.
    pub fn completed(
        challenge_id: String,
        time: Duration,
        keystrokes: Option<u32>,
        completed_at: Timestamp,
    ) -> (stats: Self)
        ensures
            stats@ == ChallengeStatsView::unattempted(challenge_id@).record_attempt(
                true,
                time,
                keystrokes,
                completed_at,
            ),
            stats@.wf(),
    {
        ChallengeStats {
            challenge_id,
            completed: true,
            best_time: Some(time),
            best_keystrokes: keystrokes,
            first_completed_at: Some(completed_at),
            last_attempted_at: Some(completed_at),
            attempt_count: 1,
            recording_hash: None,
            signature: None,
            signature_version: None,
            verification_status: VerificationStatus::Legacy,
        }
    }

    /// The statistics of a completed challenge as they were stored: with the
    /// best values, the times of the first completion and of the last
    /// attempt, the number of attempts (at least one), and the integrity
    /// data as far as they were stored. A stored signature is yet to be
    /// checked.
    pub fn restored(
        challenge_id: String,
        best_time: Duration,
        best_keystrokes: Option<u32>,
        first_completed_at: Timestamp,
        last_attempted_at: Timestamp,
        attempt_count: u32,
        recording_hash: Option<String>,
        signature: Option<String>,
        signature_version: Option<u32>,
    ) -> (stats: Self)
        ensures
            stats@ == (ChallengeStatsView {
                challenge_id: challenge_id@,
                completed: true,
                best_time: Some(best_time),
                best_keystrokes,
                first_completed_at: Some(first_completed_at),
                last_attempted_at: Some(last_attempted_at),
                attempt_count: if attempt_count >= 1 {
                    attempt_count as nat
                } else {
                    1
                },
                recording_hash: text_of(recording_hash),
                signature: text_of(signature),
                signature_version,
                verification_status: if signature is Some {
                    VerificationStatus::Unverified
                } else {
                    VerificationStatus::Legacy
                },
            }),
            stats@.wf(),
    {
        let verification_status = if signature.is_some() {
            VerificationStatus::Unverified
        } else {
            VerificationStatus::Legacy
        };
        ChallengeStats {
            challenge_id,
            completed: true,
            best_time: Some(best_time),
            best_keystrokes,
            first_completed_at: Some(first_completed_at),
            last_attempted_at: Some(last_attempted_at),
            attempt_count: if attempt_count >= 1 {
                attempt_count
            } else {
                1
            },
            recording_hash,
            signature,
            signature_version,
            verification_status,
        }
    }

    /// The statistics after one more attempt. The attempt always counts and
    /// becomes the last one; a completed attempt also marks the challenge
    /// completed, sets the first completion where there was none, and replaces
    /// each best value that it strictly improves.
    pub fn record_attempt(
        &self,
        completed: bool,
        time: Duration,
        keystrokes: Option<u32>,
        attempted_at: Timestamp,
    ) -> (updated: Self)
        requires
            self@.attempt_count < u32::MAX,
        ensures
            updated@ == self@.record_attempt(completed, time, keystrokes, attempted_at),
            self@.wf() ==> updated@.wf(),
    {
        let mut updated = self.clone();
        updated.attempt_count = updated.attempt_count + 1;
        updated.last_attempted_at = Some(attempted_at);
        if completed {
            updated.completed = true;
            if updated.first_completed_at.is_none() {
                updated.first_completed_at = Some(attempted_at);
            }
            let is_better_time = match updated.best_time {
                Some(best) => time.is_shorter_than(&best),
                None => true,
            };
            if is_better_time {
                updated.best_time = Some(time);
            }
            if let Some(new_keystrokes) = keystrokes {
                let is_better_keystrokes = match updated.best_keystrokes {
                    Some(best) => new_keystrokes < best,
                    None => true,
                };
                if is_better_keystrokes {
                    updated.best_keystrokes = Some(new_keystrokes);
                }
            }
        }
        updated
    }

    /// Whether an attempt would set a record: first for the time, second for
    /// the keystrokes. A missing keystroke count never counts as a record.
    pub fn is_new_record(&self, time: Duration, keystrokes: Option<u32>) -> (records: (bool, bool))
        ensures
            records.0 == self@.improves_time(time),
            records.1 == self@.improves_keystrokes(keystrokes),
    {
        let new_time_record = match self.best_time {
            Some(best) => time.is_shorter_than(&best),
            None => true,
        };
        let new_keystroke_record = match keystrokes {
            Some(new_ks) => match self.best_keystrokes {
                Some(best) => new_ks < best,
                None => true,
            },
            None => false,
        };
        (new_time_record, new_keystroke_record)
    }

    /// The identifier of the challenge.
    pub fn challenge_id(&self) -> (id: &str)
        ensures
            id@ == self@.challenge_id,
    {
        self.challenge_id.as_str()
    }

    /// Whether the challenge was ever completed.
    pub fn is_completed(&self) -> (b: bool)
        ensures
            b == self@.completed,
    {
        self.completed
    }

    /// The shortest time of a completed attempt.
    pub fn best_time(&self) -> (t: Option<Duration>)
        ensures
            t == self@.best_time,
    {
        self.best_time
    }

    /// The lowest keystroke count of a completed attempt.
    pub fn best_keystrokes(&self) -> (k: Option<u32>)
        ensures
            k == self@.best_keystrokes,
    {
        self.best_keystrokes
    }

    /// The time of the first completed attempt.
    pub fn first_completed_at(&self) -> (t: Option<Timestamp>)
        ensures
            t == self@.first_completed_at,
    {
        self.first_completed_at
    }

    /// The time of the last attempt.
    pub fn last_attempted_at(&self) -> (t: Option<Timestamp>)
        ensures
            t == self@.last_attempted_at,
    {
        self.last_attempted_at
    }

    /// The number of attempts, completed or not.
    pub fn attempt_count(&self) -> (n: u32)
        ensures
            n == self@.attempt_count,
    {
        self.attempt_count
    }

    /// The mastery tier: none before the first completion, then the grade of
    /// the best time and keystroke count.
    pub fn mastery_tier(&self) -> (tier: Option<MasteryTier>)
        ensures
            tier == self@.mastery_tier(),
            tier is None <==> !self@.completed,
            tier == Some(MasteryTier::Gold) ==> self@.best_time is Some && self@.best_time->0.secs
                < 15 && self@.best_keystrokes is Some && self@.best_keystrokes->0 < 30,
    {
        if !self.completed {
            return None;
        }
        match self.best_time {
            Some(time) => Some(MasteryTier::calculate(time, self.best_keystrokes)),
            None => Some(MasteryTier::Bronze),
        }
    }

    /// The hash of the recording that the signature covers.
    pub fn recording_hash(&self) -> (h: Option<&str>)
        ensures
            h is Some <==> self@.recording_hash is Some,
            h is Some ==> h->0@ == self@.recording_hash->0,
    {
        borrow_text(&self.recording_hash)
    }

    /// The stored signature.
    pub fn signature(&self) -> (s: Option<&str>)
        ensures
            s is Some <==> self@.signature is Some,
            s is Some ==> s->0@ == self@.signature->0,
    {
        borrow_text(&self.signature)
    }

    /// The version of the key that made the signature.
    pub fn signature_version(&self) -> (v: Option<u32>)
        ensures
            v == self@.signature_version,
    {
        self.signature_version
    }

    /// Whether both a signature and a recording hash are stored.
    pub fn has_integrity_data(&self) -> (b: bool)
        ensures
            b == self@.has_integrity_data(),
    {
        self.signature.is_some() && self.recording_hash.is_some()
    }

    /// The statistics with integrity data attached; what was checked before
    /// no longer holds, so the status goes back to unverified.
    pub fn with_integrity(
        self,
        recording_hash: String,
        signature: String,
        signature_version: u32,
    ) -> (stats: Self)
        ensures
            stats@ == self@.with_integrity(recording_hash@, signature@, signature_version),
            self@.wf() ==> stats@.wf(),
    {
        ChallengeStats {
            challenge_id: self.challenge_id,
            completed: self.completed,
            best_time: self.best_time,
            best_keystrokes: self.best_keystrokes,
            first_completed_at: self.first_completed_at,
            last_attempted_at: self.last_attempted_at,
            attempt_count: self.attempt_count,
            recording_hash: Some(recording_hash),
            signature: Some(signature),
            signature_version: Some(signature_version),
            verification_status: VerificationStatus::Unverified,
        }
    }

    /// What the last integrity check found.
    pub fn verification_status(&self) -> (status: VerificationStatus)
        ensures
            status == self@.verification_status,
    {
        self.verification_status
    }

    /// The statistics with the outcome of an integrity check noted.
    pub fn with_verification_status(self, status: VerificationStatus) -> (stats: Self)
        ensures
            stats@ == (ChallengeStatsView { verification_status: status, ..self@ }),
            self@.wf() ==> stats@.wf(),
    {
        ChallengeStats {
            challenge_id: self.challenge_id,
            completed: self.completed,
            best_time: self.best_time,
            best_keystrokes: self.best_keystrokes,
            first_completed_at: self.first_completed_at,
            last_attempted_at: self.last_attempted_at,
            attempt_count: self.attempt_count,
            recording_hash: self.recording_hash,
            signature: self.signature,
            signature_version: self.signature_version,
            verification_status: status,
        }
    }
}

/// Whether some completed attempt among `attempts` took exactly `time` and
/// none took less.
pub open spec fn is_least_time(attempts: Seq<Attempt>, time: Duration) -> bool {
    &&& exists|i: int|
        0 <= i < attempts.len() && (#[trigger] attempts[i]).completed && attempts[i].time == time
    &&& forall|i: int|
        0 <= i < attempts.len() && (#[trigger] attempts[i]).completed ==> !attempts[i].time.lt(time)
}

/// Whether some completed attempt among `attempts` came with exactly
/// `keystrokes` keys and none with fewer.
pub open spec fn is_least_keystrokes(attempts: Seq<Attempt>, keystrokes: u32) -> bool {
    &&& exists|i: int|
        0 <= i < attempts.len() && (#[trigger] attempts[i]).completed && attempts[i].keystrokes
            == Some(keystrokes)
    &&& forall|i: int|
        0 <= i < attempts.len() && (#[trigger] attempts[i]).completed && attempts[i].keystrokes
            is Some ==> attempts[i].keystrokes->0 >= keystrokes
}

/// Whether attempt `i` is the first completed one among `attempts`.
pub open spec fn is_first_completion(attempts: Seq<Attempt>, i: int) -> bool {
    &&& 0 <= i < attempts.len()
    &&& attempts[i].completed
    &&& forall|j: int| 0 <= j < i ==> !(#[trigger] attempts[j]).completed
}

/// After any run of attempts at a fresh challenge, the best time is the least
/// time of a completed attempt and the best keystroke count is the least
/// count that a completed attempt came with; each is missing exactly when no
/// attempt could have set it.
pub proof fn lemma_best_values_are_minima(challenge_id: Seq<char>, attempts: Seq<Attempt>)
    ensures
        ({
            let stats = ChallengeStatsView::unattempted(challenge_id).replay(attempts);
            &&& stats.best_time is None <==> forall|i: int|
                0 <= i < attempts.len() ==> !(#[trigger] attempts[i]).completed
            &&& stats.best_time is Some ==> is_least_time(attempts, stats.best_time->0)
            &&& stats.best_keystrokes is None <==> forall|i: int|
                0 <= i < attempts.len() ==> !((#[trigger] attempts[i]).completed
                    && attempts[i].keystrokes is Some)
            &&& stats.best_keystrokes is Some ==> is_least_keystrokes(
                attempts,
                stats.best_keystrokes->0,
            )
        }),
    decreases attempts.len(),
{
    if attempts.len() > 0 {
        let earlier = attempts.drop_last();
        let last = attempts.last();
        let n = earlier.len() as int;
        lemma_best_values_are_minima(challenge_id, earlier);
        let before = ChallengeStatsView::unattempted(challenge_id).replay(earlier);
        let stats = before.record(last);
        assert(forall|i: int| 0 <= i < n ==> earlier[i] == attempts[i]);
        assert(attempts[n] == last);
        if before.best_time is Some {
            let i = choose|i: int|
                0 <= i < earlier.len() && (#[trigger] earlier[i]).completed && earlier[i].time
                    == before.best_time->0;
            assert(attempts[i].completed);
        }
        if before.best_keystrokes is Some {
            let i = choose|i: int|
                0 <= i < earlier.len() && (#[trigger] earlier[i]).completed
                    && earlier[i].keystrokes == Some(before.best_keystrokes->0);
            assert(attempts[i].completed);
        }
        if stats.best_time is Some {
            assert(is_least_time(attempts, stats.best_time->0)) by {
                if last.completed && before.improves_time(last.time) {
                    assert(attempts[n].completed && attempts[n].time == stats.best_time->0);
                }
            }
        }
        if stats.best_keystrokes is Some {
            assert(is_least_keystrokes(attempts, stats.best_keystrokes->0)) by {
                if last.completed && before.improves_keystrokes(last.keystrokes) {
                    assert(attempts[n].completed && attempts[n].keystrokes
                        == stats.best_keystrokes);
                }
            }
        }
    }
}

/// The attempt count after a run of attempts is the count before it plus the
/// number of attempts, completed or not.
pub proof fn lemma_attempt_count_counts_calls(start: ChallengeStatsView, attempts: Seq<Attempt>)
    ensures
        start.replay(attempts).attempt_count == start.attempt_count + attempts.len(),
    decreases attempts.len(),
{
    if attempts.len() > 0 {
        lemma_attempt_count_counts_calls(start, attempts.drop_last());
    }
}

/// A first completion, once set, survives every later attempt unchanged.
pub proof fn lemma_first_completion_never_changes(
    start: ChallengeStatsView,
    attempts: Seq<Attempt>,
)
    requires
        start.first_completed_at is Some,
    ensures
        start.replay(attempts).first_completed_at == start.first_completed_at,
    decreases attempts.len(),
{
    if attempts.len() > 0 {
        lemma_first_completion_never_changes(start, attempts.drop_last());
    }
}

/// The first completion of a fresh challenge is set by the first completed
/// attempt, to the time of that attempt, and by no other.
pub proof fn lemma_first_completion_set_once(challenge_id: Seq<char>, attempts: Seq<Attempt>)
    ensures
        ({
            let stats = ChallengeStatsView::unattempted(challenge_id).replay(attempts);
            &&& stats.first_completed_at is None <==> forall|j: int|
                0 <= j < attempts.len() ==> !(#[trigger] attempts[j]).completed
            &&& forall|i: int|
                is_first_completion(attempts, i) ==> stats.first_completed_at == Some(
                    attempts[i].at,
                )
        }),
    decreases attempts.len(),
{
    if attempts.len() > 0 {
        let earlier = attempts.drop_last();
        let n = earlier.len() as int;
        lemma_first_completion_set_once(challenge_id, earlier);
        let before = ChallengeStatsView::unattempted(challenge_id).replay(earlier);
        let stats = before.record(attempts.last());
        assert(forall|i: int| 0 <= i < n ==> earlier[i] == attempts[i]);
        assert forall|i: int| is_first_completion(attempts, i) implies stats.first_completed_at
            == Some(attempts[i].at) by {
            if i < n {
                assert(is_first_completion(earlier, i));
            }
        }
        if before.first_completed_at is Some {
            let j = choose|j: int| 0 <= j < earlier.len() && (#[trigger] earlier[j]).completed;
            assert(attempts[j].completed);
        }
    }
}

/// Completion, once reached, stays; and the statistics of a run of attempts
/// are well formed where those at its start are.
pub proof fn lemma_replay_keeps_completion(start: ChallengeStatsView, attempts: Seq<Attempt>)
    ensures
        start.completed ==> start.replay(attempts).completed,
        start.wf() ==> start.replay(attempts).wf(),
    decreases attempts.len(),
{
    if attempts.len() > 0 {
        lemma_replay_keeps_completion(start, attempts.drop_last());
    }
}

/// A best time never gets longer and a best keystroke count never gets
/// higher: whatever the attempt, the new best is the old one or beats it.
pub proof fn lemma_best_values_only_improve(start: ChallengeStatsView, attempt: Attempt)
    ensures
        ({
            let next = start.record(attempt);
            &&& start.best_time is Some ==> next.best_time is Some && !start.best_time->0.lt(
                next.best_time->0,
            )
            &&& start.best_keystrokes is Some ==> next.best_keystrokes is Some
                && next.best_keystrokes->0 <= start.best_keystrokes->0
        }),
{
}

} // verus!
