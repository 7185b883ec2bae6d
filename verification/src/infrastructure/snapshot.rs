//! The snapshot of the progress as it is stored: plain fields, with instants
//! and days as text.

use vstd::prelude::*;
use vstd::string::*;
use crate::domain::achievement::{AchievementId, UnlockedAchievement};
use crate::domain::challenge_stats::{ChallengeStats, ChallengeStatsView, VerificationStatus, text_of};
use crate::domain::progress::{
    Progress, distinct_achievements, distinct_ids, is_sorted_by_unlock_time,
};
use crate::error::LedgerError;
use crate::time::{
    Date, Duration, NANOS_PER_SEC, Timestamp, date_format, date_of_text, date_text, optional_text,
    rfc3339_instant,
};

verus! {

/// The stored form of the statistics of one challenge.
#[derive(Debug, Clone, PartialEq, Eq)]
pub struct ChallengeStatsSnapshot {
    pub challenge_id: String,
    pub completed: bool,
    pub best_time_secs: Option<u64>,
    pub best_time_subsec_nanos: u32,
    pub best_keystrokes: Option<u32>,
    pub first_completed_at: Option<String>,
    pub last_attempted_at: Option<String>,
    pub attempt_count: u32,
    pub recording_hash: Option<String>,
    pub signature: Option<String>,
    pub signature_version: Option<u32>,
}

/// The stored form of an unlocked achievement.
#[derive(Debug, Clone, PartialEq, Eq)]
pub struct UnlockedAchievementSnapshot {
    pub id: AchievementId,
    pub unlocked_at: String,
}

/// The stored form of the progress.
#[derive(Debug, Clone, PartialEq, Eq)]
pub struct ProgressSnapshot {
    pub editor_preference: Option<String>,
    pub total_practice_time_secs: u64,
    pub total_practice_time_subsec_nanos: u32,
    pub last_practice_date: Option<String>,
    pub longest_streak: u32,
    pub challenges: Vec<ChallengeStatsSnapshot>,
    pub unlocked_achievements: Vec<UnlockedAchievementSnapshot>,
}

/// The text of an optional instant; none where there is no instant or it
/// cannot be written.
pub open spec fn instant_text(instant: Option<Timestamp>) -> Option<Seq<char>> {
    match instant {
        Some(at) => at.rfc3339(),
        None => None,
    }
}

/// The instant of an optional text; none where there is no text or it
/// cannot be read.
pub open spec fn text_instant(text: Option<String>) -> Option<Timestamp> {
    match text {
        Some(t) => rfc3339_instant(t@),
        None => None,
    }
}

/// A span of whole seconds and a stored sub-second part, which counts only
/// where it is below one second.
pub open spec fn stored_duration(secs: u64, nanos: u32) -> Duration {
    if nanos < NANOS_PER_SEC {
        Duration { secs, nanos }
    } else {
        Duration { secs, nanos: 0 }
    }
}

impl ChallengeStatsSnapshot {
    /// Whether the snapshot holds a result: a completed challenge with a
    /// best time.
    pub open spec fn holds_result(&self) -> bool {
        self.completed && self.best_time_secs is Some
    }

    /// The first completion that is restored: the stored one where it can
    /// be read, else `fallback`.
    pub open spec fn restored_first(&self, fallback: Timestamp) -> Timestamp {
        match text_instant(self.first_completed_at) {
            Some(at) => at,
            None => fallback,
        }
    }

    /// The last attempt that is restored: with more than one attempt, the
    /// stored one where it can be read; else the first completion.
    pub open spec fn restored_last(&self, fallback: Timestamp) -> Timestamp {
        if self.attempt_count > 1 && text_instant(self.last_attempted_at) is Some {
            text_instant(self.last_attempted_at)->0
        } else {
            self.restored_first(fallback)
        }
    }

    /// The statistics that the snapshot stands for. A snapshot without a
    /// result stands for a challenge that was never attempted; `fallback`
    /// takes the place of a first completion that is missing or unreadable.
    pub open spec fn restored(&self, fallback: Timestamp) -> ChallengeStatsView {
        if self.holds_result() {
            ChallengeStatsView {
                challenge_id: self.challenge_id@,
                completed: true,
                best_time: Some(
                    stored_duration(self.best_time_secs->0, self.best_time_subsec_nanos),
                ),
                best_keystrokes: self.best_keystrokes,
                first_completed_at: Some(self.restored_first(fallback)),
                last_attempted_at: Some(self.restored_last(fallback)),
                attempt_count: if self.attempt_count >= 1 {
                    self.attempt_count as nat
                } else {
                    1
                },
                recording_hash: text_of(self.recording_hash),
                signature: text_of(self.signature),
                signature_version: self.signature_version,
                verification_status: if self.signature is Some {
                    VerificationStatus::Unverified
                } else {
                    VerificationStatus::Legacy
                },
            }
        } else {
            ChallengeStatsView::unattempted(self.challenge_id@)
        }
    }

    /// Whether the snapshot is the stored form of `stats`: field by field,
    /// the best time as whole seconds and a sub-second part, and the instants
    /// as text.
    pub open spec fn stores(&self, stats: ChallengeStatsView) -> bool {
        &&& self.challenge_id@ == stats.challenge_id
        &&& self.completed == stats.completed
        &&& self.best_time_secs == match stats.best_time {
            Some(time) => Some(time.secs),
            None => None,
        }
        &&& self.best_time_subsec_nanos == match stats.best_time {
            Some(time) => time.nanos,
            None => 0,
        }
        &&& self.best_keystrokes == stats.best_keystrokes
        &&& optional_text(self.first_completed_at) == instant_text(stats.first_completed_at)
        &&& optional_text(self.last_attempted_at) == instant_text(stats.last_attempted_at)
        &&& self.attempt_count == stats.attempt_count
        &&& text_of(self.recording_hash) == stats.recording_hash
        &&& text_of(self.signature) == stats.signature
        &&& self.signature_version == stats.signature_version
    }

    /// The stored form of the statistics of a challenge.
    pub fn from_domain(stats: &ChallengeStats) -> (snapshot: Self)
        ensures
            snapshot.stores(stats@),
    {
        let (best_time_secs, best_time_subsec_nanos) = match stats.best_time() {
            Some(time) => (Some(time.as_secs()), time.subsec_nanos()),
            None => (None, 0),
        };
        ChallengeStatsSnapshot {
            challenge_id: stats.challenge_id().to_string(),
            completed: stats.is_completed(),
            best_time_secs,
            best_time_subsec_nanos,
            best_keystrokes: stats.best_keystrokes(),
            first_completed_at: match stats.first_completed_at() {
                Some(at) => at.to_rfc3339(),
                None => None,
            },
            last_attempted_at: match stats.last_attempted_at() {
                Some(at) => at.to_rfc3339(),
                None => None,
            },
            attempt_count: stats.attempt_count(),
            recording_hash: match stats.recording_hash() {
                Some(hash) => Some(hash.to_string()),
                None => None,
            },
            signature: match stats.signature() {
                Some(signature) => Some(signature.to_string()),
                None => None,
            },
            signature_version: stats.signature_version(),
        }
    }

    /// The statistics that the snapshot stands for.
    pub fn to_domain(self, fallback: Timestamp) -> (stats: ChallengeStats)
        ensures
            stats@ == self.restored(fallback),
            stats@.wf(),
    {
        let secs = match self.best_time_secs {
            Some(secs) if self.completed => secs,
            _ => {
                return ChallengeStats::new(self.challenge_id);
            },
        };
        let time = match Duration::new(secs, self.best_time_subsec_nanos) {
            Some(time) => time,
            None => Duration::from_secs(secs),
        };
        let first = match &self.first_completed_at {
            Some(text) => match Timestamp::parse_rfc3339(text.as_str()) {
                Some(at) => at,
                None => fallback,
            },
            None => fallback,
        };
        let stored_last = match &self.last_attempted_at {
            Some(text) => Timestamp::parse_rfc3339(text.as_str()),
            None => None,
        };
        let last = match stored_last {
            Some(at) if self.attempt_count > 1 => at,
            _ => first,
        };
        ChallengeStats::restored(
            self.challenge_id,
            time,
            self.best_keystrokes,
            first,
            last,
            self.attempt_count,
            self.recording_hash,
            self.signature,
            self.signature_version,
        )
    }
}

impl UnlockedAchievementSnapshot {
    /// The stored form of an unlocked achievement; none where its time
    /// cannot be written.
    pub fn from_domain(achievement: &UnlockedAchievement) -> (snapshot: Option<Self>)
        ensures
            snapshot is Some <==> achievement.unlocked_at.rfc3339() is Some,
            snapshot is Some ==> snapshot->0.id == achievement.id && Some(
                snapshot->0.unlocked_at@,
            ) == achievement.unlocked_at.rfc3339(),
    {
        match achievement.unlocked_at().to_rfc3339() {
            Some(unlocked_at) => Some(
                UnlockedAchievementSnapshot { id: achievement.id(), unlocked_at },
            ),
            None => None,
        }
    }

    /// The unlocked achievement that the snapshot stands for; none where its
    /// time cannot be read.
    pub fn to_domain(&self) -> (achievement: Option<UnlockedAchievement>)
        ensures
            achievement == match rfc3339_instant(self.unlocked_at@) {
                Some(at) => Some(UnlockedAchievement { id: self.id, unlocked_at: at }),
                None => None,
            },
    {
        match Timestamp::parse_rfc3339(self.unlocked_at.as_str()) {
            Some(at) => Some(UnlockedAchievement::new(self.id, at)),
            None => None,
        }
    }
}

/// The statistics that a list of snapshots stands for, one by one.
pub open spec fn restored_stats(
    challenges: Seq<ChallengeStatsSnapshot>,
    fallback: Timestamp,
) -> Seq<ChallengeStatsView> {
    challenges.map_values(|c: ChallengeStatsSnapshot| c.restored(fallback))
}

/// The unlocked achievements that a list of snapshots stands for: those whose
/// time can be read, in their order.
pub open spec fn restored_unlocked(
    snapshots: Seq<UnlockedAchievementSnapshot>,
) -> Seq<UnlockedAchievement>
    decreases snapshots.len(),
{
    if snapshots.len() == 0 {
        Seq::empty()
    } else {
        let earlier = restored_unlocked(snapshots.drop_last());
        match rfc3339_instant(snapshots.last().unlocked_at@) {
            Some(at) => earlier.push(UnlockedAchievement { id: snapshots.last().id, unlocked_at: at }),
            None => earlier,
        }
    }
}

/// Whether `snapshots` holds the stored forms of `unlocked`: of those whose
/// time can be written, in their order.
pub open spec fn stores_unlocked(
    snapshots: Seq<UnlockedAchievementSnapshot>,
    unlocked: Seq<UnlockedAchievement>,
) -> bool
    decreases unlocked.len(),
{
    if unlocked.len() == 0 {
        snapshots.len() == 0
    } else {
        match unlocked.last().unlocked_at.rfc3339() {
            Some(text) => snapshots.len() > 0 && snapshots.last().id == unlocked.last().id
                && snapshots.last().unlocked_at@ == text && stores_unlocked(
                snapshots.drop_last(),
                unlocked.drop_last(),
            ),
            None => stores_unlocked(snapshots, unlocked.drop_last()),
        }
    }
}

impl ProgressSnapshot {
    /// The snapshot of no progress at all.
    pub fn empty() -> (snapshot: Self)
        ensures
            snapshot.challenges@.len() == 0,
            snapshot.unlocked_achievements@.len() == 0,
            snapshot.editor_preference is None,
            snapshot.last_practice_date is None,
            snapshot.total_practice_time_secs == 0,
            snapshot.total_practice_time_subsec_nanos == 0,
            snapshot.longest_streak == 0,
    {
        ProgressSnapshot {
            editor_preference: None,
            total_practice_time_secs: 0,
            total_practice_time_subsec_nanos: 0,
            last_practice_date: None,
            longest_streak: 0,
            challenges: Vec::new(),
            unlocked_achievements: Vec::new(),
        }
    }

    /// The stored form of the progress: every challenge in its order, and
    /// the unlocked achievements by the time at which they were unlocked.
    pub fn from_domain(progress: &Progress) -> (snapshot: Self)
        ensures
            optional_text(snapshot.editor_preference) == progress@.editor_preference,
            snapshot.total_practice_time_secs == progress@.total_practice_time.secs,
            snapshot.total_practice_time_subsec_nanos == progress@.total_practice_time.nanos,
            optional_text(snapshot.last_practice_date) == match progress@.last_practice_date {
                Some(date) => date_text(date.days as int),
                None => None,
            },
            snapshot.longest_streak == progress@.longest_streak,
            snapshot.challenges@.len() == progress@.stats.len(),
            forall|i: int|
                0 <= i < snapshot.challenges@.len() ==> (#[trigger] snapshot.challenges@[i]).stores(
                    progress@.stats[i],
                ),
            exists|sorted: Seq<UnlockedAchievement>|
                #![trigger is_sorted_by_unlock_time(progress@.unlocked, sorted)]
                is_sorted_by_unlock_time(progress@.unlocked, sorted) && stores_unlocked(
                    snapshot.unlocked_achievements@,
                    sorted,
                ),
    {
        let all = progress.all_challenge_stats();
        let mut challenges: Vec<ChallengeStatsSnapshot> = Vec::new();
        let mut i: usize = 0;
        while i < all.len()
            invariant
                0 <= i <= all.len(),
                all@.map_values(|s: ChallengeStats| s@) == progress@.stats,
                challenges.len() == i,
                forall|j: int| 0 <= j < i ==> (#[trigger] challenges@[j]).stores(progress@.stats[j]),
            decreases all.len() - i,
        {
            assert(progress@.stats[i as int] == all[i as int]@);
            challenges.push(ChallengeStatsSnapshot::from_domain(&all[i]));
            i = i + 1;
        }
        let sorted = progress.unlocked_achievements();
        let ghost views = sorted@.map_values(|u: &UnlockedAchievement| *u);
        let mut unlocked_achievements: Vec<UnlockedAchievementSnapshot> = Vec::new();
        let mut k: usize = 0;
        proof {
            assert(views.take(0) =~= Seq::empty());
        }
        while k < sorted.len()
            invariant
                0 <= k <= sorted.len(),
                views == sorted@.map_values(|u: &UnlockedAchievement| *u),
                stores_unlocked(unlocked_achievements@, views.take(k as int)),
            decreases sorted.len() - k,
        {
            proof {
                assert(views.take(k + 1).drop_last() =~= views.take(k as int));
                assert(views.take(k + 1).last() == *sorted[k as int]);
            }
            let ghost before = unlocked_achievements@;
            if let Some(snapshot) = UnlockedAchievementSnapshot::from_domain(sorted[k]) {
                unlocked_achievements.push(snapshot);
                assert(unlocked_achievements@.drop_last() =~= before);
            }
            k = k + 1;
        }
        assert(views.take(k as int) =~= views);
        let total = progress.total_practice_time();
        ProgressSnapshot {
            editor_preference: match progress.editor_preference() {
                Some(editor) => Some(editor.to_string()),
                None => None,
            },
            total_practice_time_secs: total.as_secs(),
            total_practice_time_subsec_nanos: total.subsec_nanos(),
            last_practice_date: match progress.last_practice_date() {
                Some(date) => date.to_text(),
                None => None,
            },
            longest_streak: progress.longest_streak(),
            challenges,
            unlocked_achievements,
        }
    }

    /// The progress that the snapshot stands for. A snapshot that names a
    /// challenge or an achievement twice is corrupt. The last practice day
    /// counts where it can be read; `fallback` takes the place of every first
    /// completion that is missing or unreadable.
    pub fn to_domain(self, fallback: Timestamp) -> (progress: Result<Progress, LedgerError>)
        ensures
            progress is Ok <==> distinct_ids(restored_stats(self.challenges@, fallback))
                && distinct_achievements(restored_unlocked(self.unlocked_achievements@))
                && self.challenges@.len() <= u32::MAX,
            progress is Err ==> progress == Err::<Progress, LedgerError>(
                LedgerError::PersistenceCorruption,
            ),
            progress is Ok ==> {
                let restored = progress->Ok_0@;
                &&& restored.wf()
                &&& restored.stats == restored_stats(self.challenges@, fallback)
                &&& restored.unlocked == restored_unlocked(self.unlocked_achievements@)
                &&& restored.total_practice_time == stored_duration(
                    self.total_practice_time_secs,
                    self.total_practice_time_subsec_nanos,
                )
                &&& restored.last_practice_date == match self.last_practice_date {
                    Some(text) => date_of_text(text@, date_format()),
                    None => None,
                }
                &&& restored.longest_streak == self.longest_streak
                &&& restored.editor_preference == optional_text(self.editor_preference)
            },
    {
        let ghost stored = self.challenges@;
        let ghost stored_unlocked = self.unlocked_achievements@;
        let mut unlocked: Vec<UnlockedAchievement> = Vec::new();
        let mut k: usize = 0;
        proof {
            assert(stored_unlocked.take(0) =~= Seq::empty());
        }
        while k < self.unlocked_achievements.len()
            invariant
                0 <= k <= self.unlocked_achievements.len(),
                stored_unlocked == self.unlocked_achievements@,
                unlocked@ == restored_unlocked(stored_unlocked.take(k as int)),
            decreases self.unlocked_achievements.len() - k,
        {
            proof {
                assert(stored_unlocked.take(k + 1).drop_last() =~= stored_unlocked.take(k as int));
                assert(stored_unlocked.take(k + 1).last() == stored_unlocked[k as int]);
            }
            if let Some(achievement) = self.unlocked_achievements[k].to_domain() {
                unlocked.push(achievement);
            }
            k = k + 1;
        }
        assert(stored_unlocked.take(k as int) =~= stored_unlocked);
        let total = match Duration::new(
            self.total_practice_time_secs,
            self.total_practice_time_subsec_nanos,
        ) {
            Some(total) => total,
            None => Duration::from_secs(self.total_practice_time_secs),
        };
        let last_practice_date = match &self.last_practice_date {
            Some(text) => Date::parse(text.as_str()),
            None => None,
        };
        let longest_streak = self.longest_streak;
        let editor_preference = self.editor_preference;
        let mut challenges = self.challenges;
        let mut stats: Vec<ChallengeStats> = Vec::new();
        // The snapshots are taken from the end, so the statistics come out
        // in reverse and are turned round afterwards.
        let mut reversed: Vec<ChallengeStats> = Vec::new();
        while challenges.len() > 0
            invariant
                challenges@ == stored.take(challenges.len() as int),
                reversed.len() == stored.len() - challenges.len(),
                forall|j: int|
                    0 <= j < reversed.len() ==> (#[trigger] reversed[j])@ == stored[stored.len()
                        - 1 - j].restored(fallback),
            decreases challenges.len(),
        {
            let ghost n = challenges.len() as int;
            let snapshot = challenges.pop().unwrap();
            assert(snapshot == stored[n - 1]);
            assert(challenges@ =~= stored.take(n - 1));
            reversed.push(snapshot.to_domain(fallback));
        }
        while reversed.len() > 0
            invariant
                stats.len() + reversed.len() == stored.len(),
                forall|j: int|
                    0 <= j < reversed.len() ==> (#[trigger] reversed[j])@ == stored[stored.len()
                        - 1 - j].restored(fallback),
                forall|j: int| 0 <= j < stats.len() ==> (#[trigger] stats[j])@ == stored[j].restored(fallback),
            decreases reversed.len(),
        {
            let ghost n = reversed.len() as int;
            let item = reversed.pop().unwrap();
            assert(item@ == stored[stored.len() - n].restored(fallback));
            stats.push(item);
        }
        assert(stats@.map_values(|s: ChallengeStats| s@) =~= restored_stats(stored, fallback));
        if !Progress::valid_entries(&stats, &unlocked) {
            return Err(LedgerError::PersistenceCorruption);
        }
        Ok(
            Progress::with_values(
                stats,
                total,
                last_practice_date,
                longest_streak,
                editor_preference,
                unlocked,
            ),
        )
    }
}

} // verus!
