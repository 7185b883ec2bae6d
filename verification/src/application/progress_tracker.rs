//! The progress ledger: records attempts, attaches integrity data, checks
//! stored results, and keeps the snapshot in its store up to date.
//!
//! A ledger owns its progress. All of its operations that change anything
//! take it by `&mut`, so no two of them ever overlap; a caller that shares a
//! ledger between threads guards it with one lock.

use vstd::prelude::*;
use vstd::string::*;
use crate::application::achievement_checker::{AchievementChecker, after_check, newly_earned};
use crate::application::progress_repository::ProgressRepository;
use crate::domain::achievement::Achievement;
use crate::domain::challenge_stats::{ChallengeStats, ChallengeStatsView, VerificationStatus};
use crate::domain::progress::{Progress, ProgressView, has_entry};
use crate::domain::solution::Solution;
use crate::error::LedgerError;
use crate::infrastructure::crypto::{
    SIGNATURE_VERSION, SigningKey, calculate_file_hash, constant_time_compare, development_key,
    file_hash_text, sign_with_key, signature_text, verify_with_key,
};
use crate::time::{Duration, Timestamp};

verus! {

/// What is known of the recording file of a result.
#[derive(Debug)]
pub enum RecordingFile {
    /// No recording was named.
    NotProvided,
    /// A recording was named, but its file is missing or cannot be read.
    Unreadable,
    /// A recording was named, and this is the content of its file.
    Contents(Vec<u8>),
}

/// The mathematical content of a [`RecordingFile`].
pub enum RecordingFileView {
    NotProvided,
    Unreadable,
    Contents(Seq<u8>),
}

impl View for RecordingFile {
    type V = RecordingFileView;

    open spec fn view(&self) -> RecordingFileView {
        match self {
            RecordingFile::NotProvided => RecordingFileView::NotProvided,
            RecordingFile::Unreadable => RecordingFileView::Unreadable,
            RecordingFile::Contents(bytes) => RecordingFileView::Contents(bytes@),
        }
    }
}

/// The time of a result in whole milliseconds, held at `u64::MAX` where it
/// would not fit.
pub open spec fn millis_of(time: Duration) -> u64 {
    if time.total_millis() <= u64::MAX {
        time.total_millis() as u64
    } else {
        u64::MAX
    }
}

/// Whether a stored result holds all that its signature covers: best time,
/// best keystrokes, first completion and recording hash, and a first
/// completion that can be written as text.
pub open spec fn is_signable(stats: ChallengeStatsView) -> bool {
    &&& stats.best_time is Some
    &&& stats.best_keystrokes is Some
    &&& stats.first_completed_at is Some
    &&& stats.recording_hash is Some
    &&& stats.first_completed_at->0.rfc3339() is Some
}

/// The signature that a stored result should carry under `key`, given the
/// hash of its recording.
pub open spec fn expected_signature(
    stats: ChallengeStatsView,
    key: Seq<u8>,
    recording_hash: Seq<char>,
) -> Seq<char>
    recommends
        stats.best_time is Some,
        stats.best_keystrokes is Some,
        stats.first_completed_at is Some,
        stats.first_completed_at->0.rfc3339() is Some,
{
    signature_text(
        key,
        stats.challenge_id,
        stats.best_keystrokes->0,
        millis_of(stats.best_time->0),
        stats.first_completed_at->0.rfc3339()->0,
        recording_hash,
    )
}

/// What a check of a stored result finds:
///
/// - no signature stored: `Legacy`;
/// - a signature, but not all that it covers: `Unverified`;
/// - all there, but the signature is not the one that the result should
///   carry: `SignatureFailed`;
/// - the signature is right and no recording was named: `Verified`;
/// - the signature is right and the recording has the stored hash:
///   `Verified`; another hash: `RecordingHashFailed`;
/// - the signature is right and the recording cannot be read: `Verified`
///   under a development key, `RecordingHashFailed` under a production key.
pub open spec fn verification_status(
    stats: ChallengeStatsView,
    recording: RecordingFileView,
    key: Seq<u8>,
    production: bool,
) -> VerificationStatus {
    if stats.signature is None {
        VerificationStatus::Legacy
    } else if !is_signable(stats) {
        VerificationStatus::Unverified
    } else if stats.signature->0 != expected_signature(stats, key, stats.recording_hash->0) {
        VerificationStatus::SignatureFailed
    } else {
        match recording {
            RecordingFileView::NotProvided => VerificationStatus::Verified,
            RecordingFileView::Unreadable => if production {
                VerificationStatus::RecordingHashFailed
            } else {
                VerificationStatus::Verified
            },
            RecordingFileView::Contents(bytes) => if file_hash_text(bytes)
                == stats.recording_hash->0 {
                VerificationStatus::Verified
            } else {
                VerificationStatus::RecordingHashFailed
            },
        }
    }
}

/// The entry of the challenge `id` in `stats`.
pub open spec fn entry_of(stats: Seq<ChallengeStatsView>, id: Seq<char>) -> ChallengeStatsView
    recommends
        has_entry(stats, id),
{
    stats[choose|i: int| 0 <= i < stats.len() && (#[trigger] stats[i]).challenge_id == id]
}

/// Whether integrity data are attached after an attempt was recorded: there
/// is a recording, its file was read, and the result of the challenge holds a
/// best time, a best keystroke count and a first completion that can be
/// written as text.
pub open spec fn attaches_integrity(
    recorded: ProgressView,
    id: Seq<char>,
    has_recording: bool,
    recording: RecordingFileView,
) -> bool {
    &&& has_recording
    &&& recording is Contents
    &&& has_entry(recorded.stats, id)
    &&& is_signable(
        entry_of(recorded.stats, id).with_integrity(
            file_hash_text(recording->Contents_0),
            Seq::empty(),
            SIGNATURE_VERSION,
        ),
    )
}

/// The keystrokes of an attempt as they are recorded: the number of keys of
/// the recording, of which the low 32 bits are kept; unknown without a
/// recording.
pub open spec fn recorded_keystrokes(keystrokes: Option<nat>) -> Option<u32> {
    match keystrokes {
        Some(count) => Some((count % 0x1_0000_0000) as u32),
        None => None,
    }
}

/// The progress after a solution was recorded at the time `now`: the attempt
/// is recorded, and integrity data are attached to the result of the
/// challenge where they can be made.
pub open spec fn after_solution(
    progress: ProgressView,
    key: Seq<u8>,
    id: Seq<char>,
    completed: bool,
    elapsed: Duration,
    keystrokes: Option<nat>,
    recording: RecordingFileView,
    now: Timestamp,
) -> ProgressView {
    let recorded = progress.record_attempt(
        id,
        completed,
        elapsed,
        recorded_keystrokes(keystrokes),
        now,
    );
    if attaches_integrity(recorded, id, keystrokes is Some, recording) {
        let hash = file_hash_text(recording->Contents_0);
        recorded.update_challenge_integrity(
            id,
            hash,
            expected_signature(entry_of(recorded.stats, id), key, hash),
            SIGNATURE_VERSION,
        )
    } else {
        recorded
    }
}

/// A result that was recorded with its recording checks out: right after a
/// solution is recorded whose integrity data are attached, the result of the
/// challenge is found `Verified`, with the same recording as without one.
pub proof fn lemma_recorded_solution_verifies(
    progress: ProgressView,
    key: Seq<u8>,
    production: bool,
    id: Seq<char>,
    completed: bool,
    elapsed: Duration,
    keystrokes: Option<nat>,
    recording: RecordingFileView,
    now: Timestamp,
)
    requires
        progress.wf(),
        attaches_integrity(
            progress.record_attempt(id, completed, elapsed, recorded_keystrokes(keystrokes), now),
            id,
            keystrokes is Some,
            recording,
        ),
    ensures
        ({
            let after = after_solution(
                progress,
                key,
                id,
                completed,
                elapsed,
                keystrokes,
                recording,
                now,
            );
            &&& has_entry(after.stats, id)
            &&& verification_status(entry_of(after.stats, id), recording, key, production)
                == VerificationStatus::Verified
            &&& verification_status(
                entry_of(after.stats, id),
                RecordingFileView::NotProvided,
                key,
                production,
            ) == VerificationStatus::Verified
        }),
{
    let recorded = progress.record_attempt(
        id,
        completed,
        elapsed,
        recorded_keystrokes(keystrokes),
        now,
    );
    let after = after_solution(progress, key, id, completed, elapsed, keystrokes, recording, now);
    let hash = file_hash_text(recording->Contents_0);
    crate::domain::progress::lemma_stats_after_attempt(
        progress.stats,
        id,
        completed,
        elapsed,
        recorded_keystrokes(keystrokes),
        now,
    );
    let i = choose|i: int|
        0 <= i < recorded.stats.len() && (#[trigger] recorded.stats[i]).challenge_id == id;
    assert(after.stats[i].challenge_id == id);
    let j = choose|j: int|
        0 <= j < after.stats.len() && (#[trigger] after.stats[j]).challenge_id == id;
    assert(recorded.stats[j].challenge_id == id);
    assert(i == j);
}

/// The progress ledger, over the store `R`.
pub struct ProgressTracker<R: ProgressRepository> {
    repository: R,
    progress: Progress,
    key: SigningKey,
}

impl<R: ProgressRepository> ProgressTracker<R> {
    /// The progress that the ledger holds.
    pub closed spec fn progress(&self) -> ProgressView {
        self.progress@
    }

    /// The key that the ledger signs with.
    pub closed spec fn key(&self) -> Seq<u8> {
        self.key.key()
    }

    /// Whether the ledger signs with a production key.
    pub closed spec fn production(&self) -> bool {
        self.key.production()
    }

    /// The progress that the ledger holds is well formed.
    pub open spec fn wf(&self) -> bool {
        self.progress().wf()
    }

    /// A ledger over `repository` that signs with `key`, given what the store
    /// answered when it was asked for its progress. An answer that is an
    /// error is handed on as it is; progress that is not well formed is
    /// refused as corrupt; any other progress is the one that the ledger
    /// holds.
    pub fn from_loaded(
        repository: R,
        loaded: Result<Progress, LedgerError>,
        key: SigningKey,
    ) -> (tracker: Result<Self, LedgerError>)
        ensures
            tracker is Ok <==> loaded is Ok && loaded->Ok_0@.wf(),
            tracker is Ok ==> {
                &&& tracker->Ok_0.wf()
                &&& tracker->Ok_0.progress() == loaded->Ok_0@
                &&& tracker->Ok_0.key() == key.key()
                &&& tracker->Ok_0.production() == key.production()
            },
            tracker is Err ==> tracker->Err_0 == match loaded {
                Ok(_) => LedgerError::PersistenceCorruption,
                Err(error) => error,
            },
    {
        match loaded {
            Ok(progress) => {
                if progress.is_well_formed() {
                    Ok(ProgressTracker { repository, progress, key })
                } else {
                    Err(LedgerError::PersistenceCorruption)
                }
            },
            Err(error) => Err(error),
        }
    }

    /// A ledger over `repository` that signs with `key`, with the progress
    /// that the store holds. What the store answers decides the outcome, as
    /// [`ProgressTracker::from_loaded`] says.
    pub fn with_key(repository: R, key: SigningKey) -> (tracker: Result<Self, LedgerError>)
        ensures
            tracker is Ok ==> tracker->Ok_0.wf() && tracker->Ok_0.key() == key.key()
                && tracker->Ok_0.production() == key.production(),
    {
        let loaded = repository.load();
        Self::from_loaded(repository, loaded, key)
    }

    /// A ledger over `repository` that signs with the development key, with
    /// the progress that the store holds.
    pub fn new(repository: R) -> (tracker: Result<Self, LedgerError>)
        ensures
            tracker is Ok ==> tracker->Ok_0.wf() && tracker->Ok_0.key() == development_key()
                && !tracker->Ok_0.production(),
    {
        Self::with_key(repository, SigningKey::development())
    }

    /// A copy of the progress.
    pub fn get_progress(&self) -> (progress: Result<Progress, LedgerError>)
        ensures
            progress is Ok,
            progress->Ok_0@ == self.progress(),
    {
        Ok(self.progress.clone())
    }

    /// The keystrokes of a solution as they are recorded.
    fn keystrokes_of(solution: &Solution) -> (keystrokes: Option<u32>)
        ensures
            keystrokes == recorded_keystrokes(solution.keystrokes()),
    {
        match solution.recording() {
            Some(recording) => {
                let count: u64 = recording.keystroke_count() as u64;
                let low: u64 = count % 0x1_0000_0000;
                Some(low as u32)
            },
            None => None,
        }
    }

    /// Attaches integrity data to the result of the challenge, where they
    /// can be made.
    fn attach_integrity(&mut self, challenge_id: &str, has_recording: bool, recording: &RecordingFile)
        requires
            old(self).wf(),
        ensures
            final(self).wf(),
            final(self).key() == old(self).key(),
            final(self).production() == old(self).production(),
            final(self).progress() == if attaches_integrity(
                old(self).progress(),
                challenge_id@,
                has_recording,
                recording@,
            ) {
                let hash = file_hash_text(recording@->Contents_0);
                old(self).progress().update_challenge_integrity(
                    challenge_id@,
                    hash,
                    expected_signature(
                        entry_of(old(self).progress().stats, challenge_id@),
                        old(self).key(),
                        hash,
                    ),
                    SIGNATURE_VERSION,
                )
            } else {
                old(self).progress()
            },
    {
        if !has_recording {
            return ;
        }
        let bytes = match recording {
            RecordingFile::Contents(bytes) => bytes,
            _ => {
                return ;
            },
        };
        let signed = match self.progress.get_challenge_stats(challenge_id) {
            None => None,
            Some(stats) => {
                proof {
                    let views = self.progress@.stats;
                    let w = choose|w: int| 0 <= w < views.len() && #[trigger] views[w] == stats@;
                    let e = choose|e: int|
                        0 <= e < views.len() && (#[trigger] views[e]).challenge_id
                            == challenge_id@;
                    assert(views[w].challenge_id == views[e].challenge_id);
                    assert(w == e);
                }
                match (stats.best_time(), stats.best_keystrokes(), stats.first_completed_at()) {
                    (Some(time), Some(keystrokes), Some(first)) => match first.to_rfc3339() {
                        Some(timestamp) => {
                            let hash = calculate_file_hash(bytes.as_slice());
                            let key = self.key.unmasked();
                            let signature = sign_with_key(
                                key.as_slice(),
                                challenge_id,
                                keystrokes,
                                time.as_millis_saturating(),
                                timestamp.as_str(),
                                hash.as_str(),
                            );
                            Some((hash, signature))
                        },
                        None => None,
                    },
                    _ => None,
                }
            },
        };
        if let Some((hash, signature)) = signed {
            self.progress.update_challenge_integrity(
                challenge_id,
                hash,
                signature,
                SIGNATURE_VERSION,
            );
        }
    }

    /// Records a solution as of the time `now`: the attempt is recorded with
    /// the keystrokes of its recording; where there is a recording whose file
    /// was read, integrity data are attached; then the snapshot is stored.
    /// An attempt that no counter has room for is refused and changes
    /// nothing. A failure of the store leaves the progress in memory ahead of
    /// the snapshot.
    pub fn record_solution_at(
        &mut self,
        challenge_id: &str,
        solution: &Solution,
        recording: &RecordingFile,
        now: Timestamp,
    ) -> (stored: Result<(), LedgerError>)
        requires
            old(self).wf(),
        ensures
            final(self).wf(),
            final(self).key() == old(self).key(),
            final(self).production() == old(self).production(),
            final(self).progress() == if old(self).progress().can_record(
                challenge_id@,
                solution.elapsed(),
            ) {
                after_solution(
                    old(self).progress(),
                    old(self).key(),
                    challenge_id@,
                    solution.completed_spec(),
                    solution.elapsed(),
                    solution.keystrokes(),
                    recording@,
                    now,
                )
            } else {
                old(self).progress()
            },
            !old(self).progress().can_record(challenge_id@, solution.elapsed()) ==> stored == Err::<
                (),
                LedgerError,
            >(LedgerError::LimitExceeded),
    {
        if !self.progress.can_record(challenge_id, solution.elapsed_time()) {
            return Err(LedgerError::LimitExceeded);
        }
        let keystrokes = Self::keystrokes_of(solution);
        self.progress.record_attempt(
            challenge_id.to_string(),
            solution.is_completed(),
            solution.elapsed_time(),
            keystrokes,
            now,
        );
        self.attach_integrity(challenge_id, keystrokes.is_some(), recording);
        self.repository.save(&self.progress)
    }

    /// Records a solution as of the present time.
    pub fn record_solution(
        &mut self,
        challenge_id: &str,
        solution: &Solution,
        recording: &RecordingFile,
    ) -> (stored: Result<(), LedgerError>)
        requires
            old(self).wf(),
        ensures
            final(self).wf(),
            final(self).key() == old(self).key(),
            final(self).production() == old(self).production(),
            old(self).progress().can_record(challenge_id@, solution.elapsed()) ==> exists|
                now: Timestamp,
            |
                final(self).progress() == #[trigger] after_solution(
                    old(self).progress(),
                    old(self).key(),
                    challenge_id@,
                    solution.completed_spec(),
                    solution.elapsed(),
                    solution.keystrokes(),
                    recording@,
                    now,
                ),
            !old(self).progress().can_record(challenge_id@, solution.elapsed()) ==> {
                &&& final(self).progress() == old(self).progress()
                &&& stored == Err::<(), LedgerError>(LedgerError::LimitExceeded)
            },
    {
        let now = Timestamp::now();
        self.record_solution_at(challenge_id, solution, recording, now)
    }

    /// A copy of the result of a challenge, where it was attempted.
    pub fn get_challenge_stats(&self, challenge_id: &str) -> (stats: Result<
        Option<ChallengeStats>,
        LedgerError,
    >)
        requires
            self.wf(),
        ensures
            stats is Ok,
            stats->Ok_0 is Some <==> has_entry(self.progress().stats, challenge_id@),
            stats->Ok_0 is Some ==> stats->Ok_0->0@ == entry_of(
                self.progress().stats,
                challenge_id@,
            ),
    {
        match self.progress.get_challenge_stats(challenge_id) {
            Some(stats) => {
                proof {
                    let views = self.progress@.stats;
                    let w = choose|w: int| 0 <= w < views.len() && #[trigger] views[w] == stats@;
                    let e = choose|e: int|
                        0 <= e < views.len() && (#[trigger] views[e]).challenge_id
                            == challenge_id@;
                    assert(views[w].challenge_id == views[e].challenge_id);
                    assert(w == e);
                }
                Ok(Some(stats.clone()))
            },
            None => Ok(None),
        }
    }

    /// Whether a solution would set a record: first for the time, second
    /// for the keystrokes. At a challenge that was never attempted, a
    /// completed solution sets both and another sets neither.
    pub fn is_new_record(&self, challenge_id: &str, solution: &Solution) -> (records: Result<
        (bool, bool),
        LedgerError,
    >)
        requires
            self.wf(),
        ensures
            records is Ok,
            records->Ok_0 == if has_entry(self.progress().stats, challenge_id@) {
                let stats = entry_of(self.progress().stats, challenge_id@);
                (
                    stats.improves_time(solution.elapsed()),
                    stats.improves_keystrokes(recorded_keystrokes(solution.keystrokes())),
                )
            } else {
                (solution.completed_spec(), solution.completed_spec())
            },
    {
        match self.progress.get_challenge_stats(challenge_id) {
            Some(stats) => {
                proof {
                    let views = self.progress@.stats;
                    let w = choose|w: int| 0 <= w < views.len() && #[trigger] views[w] == stats@;
                    let e = choose|e: int|
                        0 <= e < views.len() && (#[trigger] views[e]).challenge_id
                            == challenge_id@;
                    assert(views[w].challenge_id == views[e].challenge_id);
                    assert(w == e);
                }
                let keystrokes = Self::keystrokes_of(solution);
                Ok(stats.is_new_record(solution.elapsed_time(), keystrokes))
            },
            None => Ok((solution.is_completed(), solution.is_completed())),
        }
    }

    /// Sets the preferred editor and stores the snapshot.
    pub fn set_editor_preference(&mut self, editor: String) -> (stored: Result<(), LedgerError>)
        requires
            old(self).wf(),
        ensures
            final(self).wf(),
            final(self).key() == old(self).key(),
            final(self).production() == old(self).production(),
            final(self).progress() == (ProgressView {
                editor_preference: Some(editor@),
                ..old(self).progress()
            }),
    {
        let updated = self.progress.clone().set_editor_preference(editor);
        self.progress = updated;
        self.repository.save(&self.progress)
    }

    /// Stores the snapshot.
    pub fn save(&self) -> (stored: Result<(), LedgerError>) {
        self.repository.save(&self.progress)
    }

    /// Unlocks, as of the time `now`, the achievements that are newly
    /// earned, and returns them; the snapshot is stored only where there are
    /// any.
    pub fn check_achievements_at(&mut self, total_challenges: usize, now: Timestamp) -> (unlocked: Result<
        Vec<Achievement>,
        LedgerError,
    >)
        requires
            old(self).wf(),
        ensures
            final(self).wf(),
            final(self).key() == old(self).key(),
            final(self).production() == old(self).production(),
            final(self).progress() == after_check(
                old(self).progress(),
                total_challenges as nat,
                now,
            ),
            newly_earned(old(self).progress(), total_challenges as nat).len() == 0
                ==> unlocked is Ok,
            unlocked is Ok ==> unlocked->Ok_0.len() == newly_earned(
                old(self).progress(),
                total_challenges as nat,
            ).len() && forall|k: int|
                0 <= k < unlocked->Ok_0.len() ==> (#[trigger] unlocked->Ok_0[k]).spec_id()
                    == newly_earned(old(self).progress(), total_challenges as nat)[k]
                    && unlocked->Ok_0[k].wf(),
    {
        let newly_unlocked = AchievementChecker::check_achievements_at(
            &mut self.progress,
            total_challenges,
            now,
        );
        if newly_unlocked.len() > 0 {
            match self.repository.save(&self.progress) {
                Ok(_) => Ok(newly_unlocked),
                Err(error) => Err(error),
            }
        } else {
            Ok(newly_unlocked)
        }
    }

    /// Unlocks, as of the present time, the achievements that are newly
    /// earned, and returns them; the snapshot is stored only where there are
    /// any.
    pub fn check_achievements(&mut self, total_challenges: usize) -> (unlocked: Result<
        Vec<Achievement>,
        LedgerError,
    >)
        requires
            old(self).wf(),
        ensures
            final(self).wf(),
            final(self).key() == old(self).key(),
            final(self).production() == old(self).production(),
            exists|now: Timestamp|
                final(self).progress() == #[trigger] after_check(
                    old(self).progress(),
                    total_challenges as nat,
                    now,
                ),
            newly_earned(old(self).progress(), total_challenges as nat).len() == 0
                ==> unlocked is Ok,
            unlocked is Ok ==> unlocked->Ok_0.len() == newly_earned(
                old(self).progress(),
                total_challenges as nat,
            ).len() && forall|k: int|
                0 <= k < unlocked->Ok_0.len() ==> (#[trigger] unlocked->Ok_0[k]).spec_id()
                    == newly_earned(old(self).progress(), total_challenges as nat)[k]
                    && unlocked->Ok_0[k].wf(),
    {
        let now = Timestamp::now();
        self.check_achievements_at(total_challenges, now)
    }

    /// What a check of a stored result finds, with what is known of its
    /// recording file.
    pub fn verify(&self, stats: &ChallengeStats, recording: &RecordingFile) -> (status: VerificationStatus)
        ensures
            status == verification_status(stats@, recording@, self.key(), self.production()),
    {
        let key = self.key.unmasked();
        verify_stats(stats, recording, key.as_slice(), self.key.is_production())
    }

    /// What a check of every stored result finds, with no recording named,
    /// in the order of the results.
    pub fn verify_all(&self) -> (statuses: Vec<VerificationStatus>)
        ensures
            statuses.len() == self.progress().stats.len(),
            forall|i: int|
                0 <= i < statuses.len() ==> #[trigger] statuses[i] == verification_status(
                    self.progress().stats[i],
                    RecordingFileView::NotProvided,
                    self.key(),
                    self.production(),
                ),
    {
        let key = self.key.unmasked();
        let production = self.key.is_production();
        let all = self.progress.all_challenge_stats();
        let none = RecordingFile::NotProvided;
        let mut statuses: Vec<VerificationStatus> = Vec::new();
        let mut i: usize = 0;
        while i < all.len()
            invariant
                0 <= i <= all.len(),
                all@.map_values(|s: ChallengeStats| s@) == self.progress().stats,
                key@ == self.key(),
                production == self.production(),
                none@ == RecordingFileView::NotProvided,
                statuses.len() == i,
                forall|j: int|
                    0 <= j < i ==> #[trigger] statuses[j] == verification_status(
                        self.progress().stats[j],
                        RecordingFileView::NotProvided,
                        self.key(),
                        self.production(),
                    ),
            decreases all.len() - i,
        {
            assert(self.progress().stats[i as int] == all[i as int]@);
            statuses.push(verify_stats(&all[i], &none, key.as_slice(), production));
            i = i + 1;
        }
        statuses
    }
}

/// What a check of a stored result finds under `key`, with what is known of
/// its recording file.
pub fn verify_stats(
    stats: &ChallengeStats,
    recording: &RecordingFile,
    key: &[u8],
    production: bool,
) -> (status: VerificationStatus)
    ensures
        status == verification_status(stats@, recording@, key@, production),
{
    let signature = match stats.signature() {
        None => {
            return VerificationStatus::Legacy;
        },
        Some(signature) => signature,
    };
    let (time, keystrokes, first, hash) = match (
        stats.best_time(),
        stats.best_keystrokes(),
        stats.first_completed_at(),
        stats.recording_hash(),
    ) {
        (Some(time), Some(keystrokes), Some(first), Some(hash)) => (time, keystrokes, first, hash),
        _ => {
            return VerificationStatus::Unverified;
        },
    };
    let timestamp = match first.to_rfc3339() {
        None => {
            return VerificationStatus::Unverified;
        },
        Some(timestamp) => timestamp,
    };
    if !verify_with_key(
        key,
        stats.challenge_id(),
        keystrokes,
        time.as_millis_saturating(),
        timestamp.as_str(),
        hash,
        signature,
    ) {
        return VerificationStatus::SignatureFailed;
    }
    match recording {
        RecordingFile::NotProvided => VerificationStatus::Verified,
        RecordingFile::Unreadable => if production {
            VerificationStatus::RecordingHashFailed
        } else {
            VerificationStatus::Verified
        },
        RecordingFile::Contents(bytes) => {
            let actual = calculate_file_hash(bytes.as_slice());
            if constant_time_compare(actual.as_str(), hash) {
                VerificationStatus::Verified
            } else {
                VerificationStatus::RecordingHashFailed
            }
        },
    }
}

} // verus!
