//! The user's overall progress: the statistics of every attempted challenge,
//! practice totals, the streak, and the unlocked achievements.

use vstd::prelude::*;
use vstd::set_lib::{lemma_int_range, lemma_len_subset, lemma_map_size, set_int_range};
use vstd::relations::injective_on;
use crate::time::{Date, Duration, Timestamp, lemma_day_in_range, time_rank};
use crate::sorting::{is_stable_order, stable_order};
use crate::domain::achievement::{AchievementId, UnlockedAchievement};
use crate::domain::challenge_stats::{ChallengeStats, ChallengeStatsView};

verus! {

/// The user's overall progress.
///
/// The statistics are kept in the order in which the challenges were first
/// attempted, one entry per challenge; the unlocked achievements in the order
/// in which they were unlocked, one entry per achievement.
#[derive(Debug)]
pub struct Progress {
    challenge_stats: Vec<ChallengeStats>,
    total_practice_time: Duration,
    last_practice_date: Option<Date>,
    longest_streak: u32,
    editor_preference: Option<String>,
    unlocked_achievements: Vec<UnlockedAchievement>,
}

/// The mathematical content of a [`Progress`].
pub struct ProgressView {
    pub stats: Seq<ChallengeStatsView>,
    pub total_practice_time: Duration,
    pub last_practice_date: Option<Date>,
    pub longest_streak: u32,
    pub editor_preference: Option<Seq<char>>,
    pub unlocked: Seq<UnlockedAchievement>,
}

/// Whether `stats` holds an entry for the challenge `id`.
pub open spec fn has_entry(stats: Seq<ChallengeStatsView>, id: Seq<char>) -> bool {
    exists|i: int| 0 <= i < stats.len() && (#[trigger] stats[i]).challenge_id == id
}

/// No challenge has two entries in `stats`.
pub open spec fn distinct_ids(stats: Seq<ChallengeStatsView>) -> bool {
    forall|i: int, j: int|
        0 <= i < stats.len() && 0 <= j < stats.len() && i != j ==> (#[trigger] stats[i]).challenge_id
            != (#[trigger] stats[j]).challenge_id
}

/// Whether `unlocked` holds the achievement `id`.
pub open spec fn is_unlocked(unlocked: Seq<UnlockedAchievement>, id: AchievementId) -> bool {
    exists|i: int| 0 <= i < unlocked.len() && (#[trigger] unlocked[i]).id == id
}

/// No achievement occurs twice in `unlocked`.
pub open spec fn distinct_achievements(unlocked: Seq<UnlockedAchievement>) -> bool {
    forall|i: int, j: int|
        0 <= i < unlocked.len() && 0 <= j < unlocked.len() && i != j ==> (#[trigger] unlocked[i]).id
            != (#[trigger] unlocked[j]).id
}

/// The statistics after an attempt at the challenge `id`: its entry is
/// replaced by the updated one, or a fresh entry with the attempt recorded is
/// added at the end.
pub open spec fn stats_after_attempt(
    stats: Seq<ChallengeStatsView>,
    id: Seq<char>,
    completed: bool,
    time: Duration,
    keystrokes: Option<u32>,
    attempted_at: Timestamp,
) -> Seq<ChallengeStatsView> {
    if has_entry(stats, id) {
        Seq::new(
            stats.len(),
            |i: int|
                if stats[i].challenge_id == id {
                    stats[i].record_attempt(completed, time, keystrokes, attempted_at)
                } else {
                    stats[i]
                },
        )
    } else {
        stats.push(
            ChallengeStatsView::unattempted(id).record_attempt(
                completed,
                time,
                keystrokes,
                attempted_at,
            ),
        )
    }
}

/// The statistics with integrity data attached to the entry of the challenge
/// `id`; unchanged where there is no such entry.
pub open spec fn stats_with_integrity(
    stats: Seq<ChallengeStatsView>,
    id: Seq<char>,
    recording_hash: Seq<char>,
    signature: Seq<char>,
    signature_version: u32,
) -> Seq<ChallengeStatsView> {
    Seq::new(
        stats.len(),
        |i: int|
            if stats[i].challenge_id == id {
                stats[i].with_integrity(recording_hash, signature, signature_version)
            } else {
                stats[i]
            },
    )
}

/// Whether some challenge was completed for the first time on the day `day`.
pub open spec fn has_completion_on(stats: Seq<ChallengeStatsView>, day: int) -> bool {
    exists|i: int|
        0 <= i < stats.len() && (#[trigger] stats[i]).first_completed_at is Some
            && stats[i].first_completed_at->0.day() == day
}

/// The number of days in a row, counted back from `day`, on each of which
/// some challenge was completed for the first time.
pub open spec fn streak_from(stats: Seq<ChallengeStatsView>, day: int) -> nat
    decreases day - i64::MIN,
{
    if day > i64::MIN && has_completion_on(stats, day) {
        1 + streak_from(stats, day - 1)
    } else {
        0
    }
}

/// The number of entries of `stats` for which `pred` holds.
pub open spec fn count_matching(
    stats: Seq<ChallengeStatsView>,
    pred: spec_fn(ChallengeStatsView) -> bool,
) -> nat
    decreases stats.len(),
{
    if stats.len() == 0 {
        0
    } else {
        count_matching(stats.drop_last(), pred) + if pred(stats.last()) {
            1nat
        } else {
            0nat
        }
    }
}

/// The sum of `measure` over the entries of `stats`.
pub open spec fn sum_over(
    stats: Seq<ChallengeStatsView>,
    measure: spec_fn(ChallengeStatsView) -> nat,
) -> nat
    decreases stats.len(),
{
    if stats.len() == 0 {
        0
    } else {
        sum_over(stats.drop_last(), measure) + measure(stats.last())
    }
}

/// The number of completed challenges.
pub open spec fn completed_count(stats: Seq<ChallengeStatsView>) -> nat {
    count_matching(stats, |s: ChallengeStatsView| s.completed)
}

/// The number of attempts over all challenges.
pub open spec fn attempts_sum(stats: Seq<ChallengeStatsView>) -> nat {
    sum_over(stats, |s: ChallengeStatsView| s.attempt_count)
}

/// The number of challenges with a best time.
pub open spec fn timed_count(stats: Seq<ChallengeStatsView>) -> nat {
    count_matching(stats, |s: ChallengeStatsView| s.best_time is Some)
}

/// The sum of the whole seconds of the best times.
pub open spec fn best_seconds_sum(stats: Seq<ChallengeStatsView>) -> nat {
    sum_over(
        stats,
        |s: ChallengeStatsView|
            if s.best_time is Some {
                s.best_time->0.secs as nat
            } else {
                0nat
            },
    )
}

/// The number of challenges with a best keystroke count.
pub open spec fn counted_count(stats: Seq<ChallengeStatsView>) -> nat {
    count_matching(stats, |s: ChallengeStatsView| s.best_keystrokes is Some)
}

/// The sum of the best keystroke counts.
pub open spec fn best_keystrokes_sum(stats: Seq<ChallengeStatsView>) -> nat {
    sum_over(
        stats,
        |s: ChallengeStatsView|
            if s.best_keystrokes is Some {
                s.best_keystrokes->0 as nat
            } else {
                0nat
            },
    )
}

/// A count of matching entries never exceeds the number of entries, and the
/// count over one more entry adds one exactly where the entry matches.
pub proof fn lemma_count_step(
    stats: Seq<ChallengeStatsView>,
    pred: spec_fn(ChallengeStatsView) -> bool,
    i: int,
)
    requires
        0 <= i < stats.len(),
    ensures
        count_matching(stats.take(i + 1), pred) == count_matching(stats.take(i), pred) + if pred(
            stats[i],
        ) {
            1nat
        } else {
            0nat
        },
        count_matching(stats.take(i), pred) <= i,
    decreases i,
{
    assert(stats.take(i + 1).drop_last() =~= stats.take(i));
    if i > 0 {
        lemma_count_step(stats, pred, i - 1);
    }
}

/// The sum over one more entry adds the measure of that entry.
pub proof fn lemma_sum_step(
    stats: Seq<ChallengeStatsView>,
    measure: spec_fn(ChallengeStatsView) -> nat,
    i: int,
)
    requires
        0 <= i < stats.len(),
    ensures
        sum_over(stats.take(i + 1), measure) == sum_over(stats.take(i), measure) + measure(
            stats[i],
        ),
{
    assert(stats.take(i + 1).drop_last() =~= stats.take(i));
}

/// A streak reaches back exactly as far as the completions do: each of its
/// days has a first completion, and the day before its first day has none.
pub proof fn lemma_streak_characterised(stats: Seq<ChallengeStatsView>, day: int)
    ensures
        forall|j: int|
            0 <= j < streak_from(stats, day) ==> #[trigger] has_completion_on(stats, day - j),
        !has_completion_on(stats, day - streak_from(stats, day)),
    decreases day - i64::MIN,
{
    if day > i64::MIN && has_completion_on(stats, day) {
        lemma_streak_characterised(stats, day - 1);
        assert forall|j: int| 0 <= j < streak_from(stats, day) implies #[trigger] has_completion_on(
            stats,
            day - j,
        ) by {
            if j > 0 {
                assert(has_completion_on(stats, (day - 1) - (j - 1)));
            }
        }
    } else {
        if has_completion_on(stats, day) {
            let i = choose|i: int|
                0 <= i < stats.len() && (#[trigger] stats[i]).first_completed_at is Some
                    && stats[i].first_completed_at->0.day() == day;
            lemma_day_in_range(stats[i].first_completed_at->0);
        }
    }
}

/// The entry that witnesses a first completion on the day `day`.
pub open spec fn completion_witness(stats: Seq<ChallengeStatsView>, day: int) -> int {
    choose|i: int|
        0 <= i < stats.len() && (#[trigger] stats[i]).first_completed_at is Some
            && stats[i].first_completed_at->0.day() == day
}

/// A streak is never longer than the number of challenges: each of its days
/// needs a challenge of its own.
pub proof fn lemma_streak_bounded(stats: Seq<ChallengeStatsView>, day: int)
    ensures
        streak_from(stats, day) <= stats.len(),
{
    let k = streak_from(stats, day) as int;
    lemma_streak_characterised(stats, day);
    let days = set_int_range(0, k);
    let witness = |j: int| completion_witness(stats, day - j);
    let entries = days.map(witness);
    lemma_int_range(0, k);
    lemma_int_range(0, stats.len() as int);
    assert forall|j: int| days.contains(j) implies {
        let i = #[trigger] witness(j);
        0 <= i < stats.len() && stats[i].first_completed_at is Some
            && stats[i].first_completed_at->0.day() == day - j
    } by {
        assert(has_completion_on(stats, day - j));
    }
    assert(injective_on(witness, days)) by {
        assert forall|a: int, b: int|
            days.contains(a) && days.contains(b) && #[trigger] witness(a) == #[trigger] witness(
                b,
            ) implies a == b by {
            let i = witness(a);
            assert(stats[i].first_completed_at->0.day() == day - a);
            assert(stats[i].first_completed_at->0.day() == day - b);
        }
    }
    lemma_map_size(days, entries, witness);
    assert(entries.subset_of(set_int_range(0, stats.len() as int))) by {
        assert forall|i: int| entries.contains(i) implies set_int_range(
            0,
            stats.len() as int,
        ).contains(i) by {
            let j = choose|j: int| days.contains(j) && witness(j) == i;
            assert(days.contains(j));
        }
    }
    lemma_len_subset(entries, set_int_range(0, stats.len() as int));
}

impl ProgressView {
    /// No challenge has two entries, no achievement is unlocked twice, and
    /// the number of challenges fits the type of a streak.
    pub open spec fn wf(self) -> bool {
        &&& distinct_ids(self.stats)
        &&& distinct_achievements(self.unlocked)
        &&& self.stats.len() <= u32::MAX
    }

    /// Empty progress.
    pub open spec fn empty() -> ProgressView {
        ProgressView {
            stats: Seq::empty(),
            total_practice_time: Duration { secs: 0, nanos: 0 },
            last_practice_date: None,
            longest_streak: 0,
            editor_preference: None,
            unlocked: Seq::empty(),
        }
    }

    /// The current streak as of the day `today`: none without an earlier
    /// practice day or after a gap of more than one day; else the days in a
    /// row, counted back from `today`, with a first completion each.
    pub open spec fn current_streak(self, today: int) -> nat {
        if self.last_practice_date is None {
            0
        } else if today - self.last_practice_date->0.days > 1 {
            0
        } else {
            streak_from(self.stats, today)
        }
    }

    /// Whether an attempt at the challenge `id` that took `time` can be
    /// recorded within the machine's limits: the practice total, the attempt
    /// count of the challenge and the number of challenges all have room.
    pub open spec fn can_record(self, id: Seq<char>, time: Duration) -> bool {
        &&& self.total_practice_time.can_add(time)
        &&& forall|i: int|
            0 <= i < self.stats.len() && (#[trigger] self.stats[i]).challenge_id == id
                ==> self.stats[i].attempt_count < u32::MAX
        &&& has_entry(self.stats, id) || self.stats.len() < u32::MAX
    }

    /// The progress after an attempt: the statistics of the challenge are
    /// brought up to date, the time counts towards the practice total whether
    /// the attempt was completed or not, the day of the attempt becomes the
    /// last practice day, and a completed attempt raises the longest streak
    /// to the current one where that is longer.
    pub open spec fn record_attempt(
        self,
        id: Seq<char>,
        completed: bool,
        time: Duration,
        keystrokes: Option<u32>,
        attempted_at: Timestamp,
    ) -> ProgressView {
        let stats = stats_after_attempt(self.stats, id, completed, time, keystrokes, attempted_at);
        let today = attempted_at.day();
        let streak = streak_from(stats, today);
        ProgressView {
            stats,
            total_practice_time: self.total_practice_time.plus(time),
            last_practice_date: Some(Date { days: today as i64 }),
            longest_streak: if completed && streak > self.longest_streak {
                streak as u32
            } else {
                self.longest_streak
            },
            ..self
        }
    }

    /// The progress with integrity data attached to the challenge `id`.
    pub open spec fn update_challenge_integrity(
        self,
        id: Seq<char>,
        recording_hash: Seq<char>,
        signature: Seq<char>,
        signature_version: u32,
    ) -> ProgressView {
        ProgressView {
            stats: stats_with_integrity(
                self.stats,
                id,
                recording_hash,
                signature,
                signature_version,
            ),
            ..self
        }
    }

    /// The progress with the achievement `id` unlocked at `unlocked_at`;
    /// unchanged where it was unlocked before.
    pub open spec fn unlock(self, id: AchievementId, unlocked_at: Timestamp) -> ProgressView {
        if is_unlocked(self.unlocked, id) {
            self
        } else {
            ProgressView {
                unlocked: self.unlocked.push(UnlockedAchievement { id, unlocked_at }),
                ..self
            }
        }
    }

    /// The average of the best keystroke counts, rounded down; none where no
    /// challenge has one.
    pub open spec fn average_keystrokes(self) -> Option<nat> {
        if counted_count(self.stats) == 0 {
            None
        } else {
            Some(best_keystrokes_sum(self.stats) / counted_count(self.stats))
        }
    }

    /// The average of the best times in whole seconds, rounded down; none
    /// where no challenge has one.
    pub open spec fn average_solve_seconds(self) -> Option<nat> {
        if timed_count(self.stats) == 0 {
            None
        } else {
            Some(best_seconds_sum(self.stats) / timed_count(self.stats))
        }
    }
}

/// The keys by which unlocked achievements are sorted: the ranks of the times
/// at which they were unlocked.
pub open spec fn unlock_keys(unlocked: Seq<UnlockedAchievement>) -> Seq<i128> {
    unlocked.map_values(|u: UnlockedAchievement| time_rank(u.unlocked_at))
}

/// Whether `sorted` holds the achievements of `unlocked` by the time at which
/// they were unlocked, the earliest first, and those of the same time in the
/// order in which they stand in `unlocked`.
pub open spec fn is_sorted_by_unlock_time(
    unlocked: Seq<UnlockedAchievement>,
    sorted: Seq<UnlockedAchievement>,
) -> bool {
    exists|order: Seq<usize>|
        #![trigger is_stable_order(unlock_keys(unlocked), order)]
        is_stable_order(unlock_keys(unlocked), order) && sorted.len() == unlocked.len()
            && forall|k: int| 0 <= k < sorted.len() ==> #[trigger] sorted[k] == unlocked[order[k] as int]
}

/// The key by which results are sorted for recency: the later the last
/// attempt, the lower; results without one come last.
pub open spec fn recency_key(stats: ChallengeStatsView) -> i128 {
    match stats.last_attempted_at {
        Some(at) => (-time_rank(at)) as i128,
        None => i128::MAX,
    }
}

/// The recency keys of the results at the positions `picked`.
pub open spec fn recency_keys(stats: Seq<ChallengeStatsView>, picked: Seq<usize>) -> Seq<i128> {
    picked.map_values(|p: usize| recency_key(stats[p as int]))
}

/// Whether `picked` lists the positions of the completed challenges of
/// `stats`, all of them and no others, in ascending order.
pub open spec fn picks_completed(stats: Seq<ChallengeStatsView>, picked: Seq<usize>) -> bool {
    &&& forall|j: int| 0 <= j < picked.len() ==> #[trigger] picked[j] < stats.len() && stats[picked[j] as int].completed
    &&& forall|a: int, b: int| 0 <= a < b < picked.len() ==> #[trigger] picked[a] < #[trigger] picked[b]
    &&& forall|i: int| 0 <= i < stats.len() && (#[trigger] stats[i]).completed ==> picked.contains(i as usize)
}

/// Whether `recent` holds the `limit` most recently attempted of the
/// completed challenges of `stats`, the most recent first, and those of the
/// same time in the order in which they stand in `stats`; all of them where
/// there are fewer.
pub open spec fn is_most_recent(
    stats: Seq<ChallengeStatsView>,
    limit: nat,
    recent: Seq<ChallengeStatsView>,
) -> bool {
    exists|picked: Seq<usize>, order: Seq<usize>|
        #![trigger picks_completed(stats, picked), is_stable_order(recency_keys(stats, picked), order)]
        picks_completed(stats, picked) && is_stable_order(recency_keys(stats, picked), order) && recent.len() == (if limit < picked.len() {
            limit
        } else {
            picked.len()
        }) && forall|k: int|
            0 <= k < recent.len() ==> #[trigger] recent[k] == stats[picked[order[k] as int] as int]
}

/// Recording an attempt keeps the entries distinct, and adds at most one.
pub proof fn lemma_stats_after_attempt(
    stats: Seq<ChallengeStatsView>,
    id: Seq<char>,
    completed: bool,
    time: Duration,
    keystrokes: Option<u32>,
    attempted_at: Timestamp,
)
    requires
        distinct_ids(stats),
    ensures
        ({
            let after = stats_after_attempt(stats, id, completed, time, keystrokes, attempted_at);
            &&& distinct_ids(after)
            &&& has_entry(after, id)
            &&& after.len() == if has_entry(stats, id) {
                stats.len()
            } else {
                stats.len() + 1
            }
            &&& forall|i: int|
                0 <= i < stats.len() ==> (#[trigger] after[i]).challenge_id == stats[i].challenge_id
        }),
{
    let after = stats_after_attempt(stats, id, completed, time, keystrokes, attempted_at);
    if has_entry(stats, id) {
        let i = choose|i: int| 0 <= i < stats.len() && (#[trigger] stats[i]).challenge_id == id;
        assert(after[i].challenge_id == id);
    } else {
        assert(after[stats.len() as int].challenge_id == id);
    }
}

impl View for Progress {
    type V = ProgressView;

    closed spec fn view(&self) -> ProgressView {
        ProgressView {
            stats: self.challenge_stats@.map_values(|s: ChallengeStats| s@),
            total_practice_time: self.total_practice_time,
            last_practice_date: self.last_practice_date,
            longest_streak: self.longest_streak,
            editor_preference: match self.editor_preference {
                Some(e) => Some(e@),
                None => None,
            },
            unlocked: self.unlocked_achievements@,
        }
    }
}

impl Clone for Progress {
    fn clone(&self) -> (copy: Self)
        ensures
            copy@ == self@,
    {
        let mut stats: Vec<ChallengeStats> = Vec::new();
        let mut i: usize = 0;
        while i < self.challenge_stats.len()
            invariant
                0 <= i <= self.challenge_stats.len(),
                stats.len() == i,
                forall|j: int| 0 <= j < i ==> (#[trigger] stats[j])@ == self.challenge_stats[j]@,
            decreases self.challenge_stats.len() - i,
        {
            stats.push(self.challenge_stats[i].clone());
            i = i + 1;
        }
        let mut unlocked: Vec<UnlockedAchievement> = Vec::new();
        let mut k: usize = 0;
        while k < self.unlocked_achievements.len()
            invariant
                0 <= k <= self.unlocked_achievements.len(),
                unlocked@ == self.unlocked_achievements@.take(k as int),
            decreases self.unlocked_achievements.len() - k,
        {
            unlocked.push(self.unlocked_achievements[k]);
            assert(self.unlocked_achievements@.take(k + 1) =~= self.unlocked_achievements@.take(
                k as int,
            ).push(self.unlocked_achievements[k as int]));
            k = k + 1;
        }
        assert(unlocked@ =~= self.unlocked_achievements@);
        let copy = Progress {
            challenge_stats: stats,
            total_practice_time: self.total_practice_time,
            last_practice_date: self.last_practice_date,
            longest_streak: self.longest_streak,
            editor_preference: match &self.editor_preference {
                Some(e) => Some(e.clone()),
                None => None,
            },
            unlocked_achievements: unlocked,
        };
        assert(copy@.stats =~= self@.stats);
        copy
    }
}

impl Progress {
    /// Empty progress: nothing attempted, nothing unlocked.
    pub fn new() -> (progress: Self)
        ensures
            progress@ == ProgressView::empty(),
            progress@.wf(),
    {
        let progress = Progress {
            challenge_stats: Vec::new(),
            total_practice_time: Duration::zero(),
            last_practice_date: None,
            longest_streak: 0,
            editor_preference: None,
            unlocked_achievements: Vec::new(),
        };
        assert(progress@.stats =~= Seq::empty());
        progress
    }

    /// The index of the entry of the challenge `id`, where there is one.
    fn find_index(&self, challenge_id: &str) -> (found: Option<usize>)
        ensures
            found is Some <==> has_entry(self@.stats, challenge_id@),
            found is Some ==> found->0 < self@.stats.len() && self@.stats[found->0 as int].challenge_id
                == challenge_id@,
    {
        let mut i: usize = 0;
        while i < self.challenge_stats.len()
            invariant
                0 <= i <= self.challenge_stats.len(),
                self@.stats.len() == self.challenge_stats.len(),
                forall|j: int| 0 <= j < i ==> (#[trigger] self@.stats[j]).challenge_id != challenge_id@,
            decreases self.challenge_stats.len() - i,
        {
            if crate::text::same_text(self.challenge_stats[i].challenge_id(), challenge_id) {
                return Some(i);
            }
            i = i + 1;
        }
        None
    }

    /// The statistics of the challenge `id`, where it was attempted.
    pub fn get_challenge_stats(&self, challenge_id: &str) -> (stats: Option<&ChallengeStats>)
        ensures
            stats is Some <==> has_entry(self@.stats, challenge_id@),
            stats is Some ==> stats->0@.challenge_id == challenge_id@ && exists|i: int|
                0 <= i < self@.stats.len() && #[trigger] self@.stats[i] == stats->0@,
    {
        match self.find_index(challenge_id) {
            Some(i) => {
                assert(self@.stats[i as int] == self.challenge_stats[i as int]@);
                Some(&self.challenge_stats[i])
            },
            None => None,
        }
    }

    /// Whether an attempt at the challenge `id` that took `time` can be
    /// recorded within the machine's limits.
    pub fn can_record(&self, challenge_id: &str, time: Duration) -> (ok: bool)
        requires
            self@.wf(),
        ensures
            ok == self@.can_record(challenge_id@, time),
    {
        if self.total_practice_time.checked_add(&time).is_none() {
            return false;
        }
        match self.find_index(challenge_id) {
            Some(i) => {
                assert(self@.stats[i as int] == self.challenge_stats[i as int]@);
                self.challenge_stats[i].attempt_count() < u32::MAX
            },
            None => self.challenge_stats.len() < u32::MAX as usize,
        }
    }

    /// Whether some challenge was completed for the first time on `date`.
    fn has_completion_on_date(&self, date: Date) -> (found: bool)
        ensures
            found == has_completion_on(self@.stats, date.days as int),
    {
        let mut i: usize = 0;
        while i < self.challenge_stats.len()
            invariant
                0 <= i <= self.challenge_stats.len(),
                self@.stats.len() == self.challenge_stats.len(),
                forall|j: int|
                    0 <= j < i ==> !((#[trigger] self@.stats[j]).first_completed_at is Some
                        && self@.stats[j].first_completed_at->0.day() == date.days),
            decreases self.challenge_stats.len() - i,
        {
            assert(self@.stats[i as int] == self.challenge_stats[i as int]@);
            if let Some(first_completed) = self.challenge_stats[i].first_completed_at() {
                if first_completed.date().days() == date.days() {
                    return true;
                }
            }
            i = i + 1;
        }
        false
    }

    /// The current streak as of `today`: 0 without an earlier practice day, 0
    /// after a gap of more than one day since the last practice day, else the
    /// number of days in a row, counted back from `today`, on each of which
    /// some challenge was completed for the first time.
    pub fn calculate_current_streak(&self, today: Date) -> (streak: u32)
        requires
            self@.wf(),
        ensures
            streak == self@.current_streak(today.days as int),
            self@.last_practice_date is Some && today.days - self@.last_practice_date->0.days > 1
                ==> streak == 0,
    {
        match self.last_practice_date {
            None => {
                return 0;
            },
            Some(last_practice) => {
                if today.is_more_than_a_day_after(&last_practice) {
                    return 0;
                }
            },
        }
        self.count_streak(today)
    }

    /// The number of days in a row, counted back from `today`, with a first
    /// completion each.
    fn count_streak(&self, today: Date) -> (streak: u32)
        requires
            self@.stats.len() <= u32::MAX,
        ensures
            streak == streak_from(self@.stats, today.days as int),
    {
        let mut streak: u32 = 0;
        let mut day: i64 = today.days();
        proof {
            lemma_streak_bounded(self@.stats, today.days as int);
        }
        loop
            invariant
                streak + streak_from(self@.stats, day as int) == streak_from(
                    self@.stats,
                    today.days as int,
                ),
                streak_from(self@.stats, today.days as int) <= u32::MAX,
            ensures
                streak == streak_from(self@.stats, today.days as int),
            decreases day - i64::MIN,
        {
            if day == i64::MIN || !self.has_completion_on_date(Date::from_days(day)) {
                break ;
            }
            streak = streak + 1;
            day = day - 1;
        }
        streak
    }

    /// Records an attempt. The statistics of the challenge are brought up to
    /// date (a first attempt adds them); the time counts towards the practice
    /// total whether the attempt was completed or not; the day of the attempt
    /// becomes the last practice day; a completed attempt raises the longest
    /// streak to the current one where that is longer.
    pub fn record_attempt(
        &mut self,
        challenge_id: String,
        completed: bool,
        time: Duration,
        keystrokes: Option<u32>,
        attempted_at: Timestamp,
    )
        requires
            old(self)@.wf(),
            old(self)@.can_record(challenge_id@, time),
        ensures
            final(self)@ == old(self)@.record_attempt(
                challenge_id@,
                completed,
                time,
                keystrokes,
                attempted_at,
            ),
            final(self)@.wf(),
    {
        let attempted_date = attempted_at.date();
        let ghost before = self@;
        let ghost after = stats_after_attempt(
            before.stats,
            challenge_id@,
            completed,
            time,
            keystrokes,
            attempted_at,
        );
        proof {
            lemma_stats_after_attempt(
                before.stats,
                challenge_id@,
                completed,
                time,
                keystrokes,
                attempted_at,
            );
        }
        match self.find_index(challenge_id.as_str()) {
            Some(i) => {
                assert(before.stats[i as int] == self.challenge_stats[i as int]@);
                let updated = self.challenge_stats[i].record_attempt(
                    completed,
                    time,
                    keystrokes,
                    attempted_at,
                );
                self.challenge_stats.set(i, updated);
                assert(self@.stats =~= after) by {
                    assert forall|j: int| 0 <= j < after.len() implies self@.stats[j]
                        == after[j] by {
                        if j != i as int {
                            assert(before.stats[j].challenge_id != before.stats[i as int].challenge_id);
                        }
                    }
                }
            },
            None => {
                let fresh = if completed {
                    ChallengeStats::completed(challenge_id, time, keystrokes, attempted_at)
                } else {
                    ChallengeStats::new(challenge_id).record_attempt(
                        completed,
                        time,
                        keystrokes,
                        attempted_at,
                    )
                };
                self.challenge_stats.push(fresh);
                assert(self@.stats =~= after);
            },
        }
        let total = self.total_practice_time.checked_add(&time);
        self.total_practice_time = total.unwrap();
        self.last_practice_date = Some(attempted_date);
        if completed {
            let current_streak = self.count_streak(attempted_date);
            if current_streak > self.longest_streak {
                self.longest_streak = current_streak;
            }
        }
    }

    /// Attaches integrity data to the statistics of the challenge `id`;
    /// nothing changes where the challenge was never attempted.
    pub fn update_challenge_integrity(
        &mut self,
        challenge_id: &str,
        recording_hash: String,
        signature: String,
        signature_version: u32,
    )
        requires
            old(self)@.wf(),
        ensures
            final(self)@ == old(self)@.update_challenge_integrity(
                challenge_id@,
                recording_hash@,
                signature@,
                signature_version,
            ),
            final(self)@.wf(),
    {
        let ghost before = self@;
        let ghost after = stats_with_integrity(
            before.stats,
            challenge_id@,
            recording_hash@,
            signature@,
            signature_version,
        );
        match self.find_index(challenge_id) {
            Some(i) => {
                assert(before.stats[i as int] == self.challenge_stats[i as int]@);
                let updated = self.challenge_stats[i].clone().with_integrity(
                    recording_hash,
                    signature,
                    signature_version,
                );
                self.challenge_stats.set(i, updated);
                assert(self@.stats =~= after) by {
                    assert forall|j: int| 0 <= j < after.len() implies self@.stats[j]
                        == after[j] by {
                        if j != i as int {
                            assert(before.stats[j].challenge_id != before.stats[i as int].challenge_id);
                        }
                    }
                }
            },
            None => {
                assert(before.stats =~= after);
            },
        }
    }

    /// Whether a list of statistics and a list of unlocked achievements can
    /// make up a progress: no challenge and no achievement occurs twice, and
    /// the number of challenges fits the type of a streak.
    pub fn valid_entries(
        challenge_stats: &Vec<ChallengeStats>,
        unlocked_achievements: &Vec<UnlockedAchievement>,
    ) -> (valid: bool)
        ensures
            valid == (distinct_ids(challenge_stats@.map_values(|s: ChallengeStats| s@))
                && distinct_achievements(unlocked_achievements@) && challenge_stats.len()
                <= u32::MAX),
    {
        let ghost stats = challenge_stats@.map_values(|s: ChallengeStats| s@);
        if challenge_stats.len() > u32::MAX as usize {
            return false;
        }
        let mut i: usize = 0;
        while i < challenge_stats.len()
            invariant
                0 <= i <= challenge_stats.len(),
                stats == challenge_stats@.map_values(|s: ChallengeStats| s@),
                forall|a: int, b: int|
                    0 <= a < i && 0 <= b < a ==> (#[trigger] stats[a]).challenge_id
                        != (#[trigger] stats[b]).challenge_id,
            decreases challenge_stats.len() - i,
        {
            let mut j: usize = 0;
            while j < i
                invariant
                    0 <= j <= i < challenge_stats.len(),
                    stats == challenge_stats@.map_values(|s: ChallengeStats| s@),
                    forall|b: int|
                        0 <= b < j ==> (#[trigger] stats[b]).challenge_id
                            != stats[i as int].challenge_id,
                decreases i - j,
            {
                if crate::text::same_text(
                    challenge_stats[i].challenge_id(),
                    challenge_stats[j].challenge_id(),
                ) {
                    assert(stats[i as int].challenge_id == stats[j as int].challenge_id);
                    return false;
                }
                j = j + 1;
            }
            i = i + 1;
        }
        let mut k: usize = 0;
        while k < unlocked_achievements.len()
            invariant
                0 <= k <= unlocked_achievements.len(),
                forall|a: int, b: int|
                    0 <= a < k && 0 <= b < a ==> (#[trigger] unlocked_achievements[a]).id
                        != (#[trigger] unlocked_achievements[b]).id,
            decreases unlocked_achievements.len() - k,
        {
            let mut l: usize = 0;
            while l < k
                invariant
                    0 <= l <= k < unlocked_achievements.len(),
                    forall|b: int|
                        0 <= b < l ==> (#[trigger] unlocked_achievements[b]).id
                            != unlocked_achievements[k as int].id,
                decreases k - l,
            {
                if unlocked_achievements[k].id == unlocked_achievements[l].id {
                    return false;
                }
                l = l + 1;
            }
            k = k + 1;
        }
        assert(distinct_ids(stats)) by {
            assert forall|a: int, b: int|
                0 <= a < stats.len() && 0 <= b < stats.len() && a != b implies (
            #[trigger] stats[a]).challenge_id != (#[trigger] stats[b]).challenge_id by {
                if b < a {
                } else {
                    assert(stats[b].challenge_id != stats[a].challenge_id);
                }
            }
        }
        assert(distinct_achievements(unlocked_achievements@)) by {
            assert forall|a: int, b: int|
                0 <= a < unlocked_achievements.len() && 0 <= b < unlocked_achievements.len() && a
                    != b implies (#[trigger] unlocked_achievements[a]).id != (
            #[trigger] unlocked_achievements[b]).id by {
                if b < a {
                } else {
                    assert(unlocked_achievements[b].id != unlocked_achievements[a].id);
                }
            }
        }
        true
    }

    /// Whether the progress is well formed. Progress that this library made
    /// always is.
    pub fn is_well_formed(&self) -> (valid: bool)
        ensures
            valid == self@.wf(),
    {
        Progress::valid_entries(&self.challenge_stats, &self.unlocked_achievements)
    }

    /// Progress made up of the given parts.
    pub fn with_values(
        challenge_stats: Vec<ChallengeStats>,
        total_practice_time: Duration,
        last_practice_date: Option<Date>,
        longest_streak: u32,
        editor_preference: Option<String>,
        unlocked_achievements: Vec<UnlockedAchievement>,
    ) -> (progress: Self)
        requires
            distinct_ids(challenge_stats@.map_values(|s: ChallengeStats| s@)),
            distinct_achievements(unlocked_achievements@),
            challenge_stats.len() <= u32::MAX,
        ensures
            progress@.stats == challenge_stats@.map_values(|s: ChallengeStats| s@),
            progress@.total_practice_time == total_practice_time,
            progress@.last_practice_date == last_practice_date,
            progress@.longest_streak == longest_streak,
            progress@.editor_preference == crate::domain::challenge_stats::text_of(
                editor_preference,
            ),
            progress@.unlocked == unlocked_achievements@,
            progress@.wf(),
    {
        Progress {
            challenge_stats,
            total_practice_time,
            last_practice_date,
            longest_streak,
            editor_preference,
            unlocked_achievements,
        }
    }

    /// The progress with the preferred editor set.
    pub fn set_editor_preference(self, editor: String) -> (progress: Self)
        ensures
            progress@ == (ProgressView { editor_preference: Some(editor@), ..self@ }),
    {
        let mut progress = self;
        progress.editor_preference = Some(editor);
        progress
    }

    /// The number of completed challenges.
    pub fn total_completed(&self) -> (count: usize)
        ensures
            count == completed_count(self@.stats),
    {
        let mut count: usize = 0;
        let mut i: usize = 0;
        let ghost pred = |s: ChallengeStatsView| s.completed;
        proof {
            assert(self@.stats.take(0) =~= Seq::empty());
        }
        while i < self.challenge_stats.len()
            invariant
                0 <= i <= self.challenge_stats.len(),
                self@.stats.len() == self.challenge_stats.len(),
                pred == (|s: ChallengeStatsView| s.completed),
                count == count_matching(self@.stats.take(i as int), pred),
                count <= i,
            decreases self.challenge_stats.len() - i,
        {
            proof {
                lemma_count_step(self@.stats, pred, i as int);
                assert(self@.stats[i as int] == self.challenge_stats[i as int]@);
            }
            if self.challenge_stats[i].is_completed() {
                count = count + 1;
            }
            i = i + 1;
        }
        assert(self@.stats.take(i as int) =~= self@.stats);
        count
    }

    /// The statistics of all challenges, in the order of their first attempt.
    pub fn all_challenge_stats(&self) -> (stats: &Vec<ChallengeStats>)
        ensures
            stats@.map_values(|s: ChallengeStats| s@) == self@.stats,
    {
        &self.challenge_stats
    }

    /// The time spent on all attempts, completed or not.
    pub fn total_practice_time(&self) -> (time: Duration)
        ensures
            time == self@.total_practice_time,
    {
        self.total_practice_time
    }

    /// The day of the last attempt.
    pub fn last_practice_date(&self) -> (date: Option<Date>)
        ensures
            date == self@.last_practice_date,
    {
        self.last_practice_date
    }

    /// The longest streak reached so far.
    pub fn longest_streak(&self) -> (streak: u32)
        ensures
            streak == self@.longest_streak,
    {
        self.longest_streak
    }

    /// The preferred editor.
    pub fn editor_preference(&self) -> (editor: Option<&str>)
        ensures
            editor is Some <==> self@.editor_preference is Some,
            editor is Some ==> editor->0@ == self@.editor_preference->0,
    {
        match &self.editor_preference {
            Some(e) => Some(e.as_str()),
            None => None,
        }
    }

    /// The number of attempts over all challenges.
    pub fn total_attempts(&self) -> (total: u32)
        requires
            attempts_sum(self@.stats) <= u32::MAX,
        ensures
            total == attempts_sum(self@.stats),
    {
        let mut total: u128 = 0;
        let mut i: usize = 0;
        let ghost measure = |s: ChallengeStatsView| s.attempt_count;
        proof {
            assert(self@.stats.take(0) =~= Seq::empty());
        }
        while i < self.challenge_stats.len()
            invariant
                0 <= i <= self.challenge_stats.len(),
                self@.stats.len() == self.challenge_stats.len(),
                measure == (|s: ChallengeStatsView| s.attempt_count),
                total == sum_over(self@.stats.take(i as int), measure),
                total <= i * 0x1_0000_0000,
            decreases self.challenge_stats.len() - i,
        {
            proof {
                lemma_sum_step(self@.stats, measure, i as int);
                assert(self@.stats[i as int] == self.challenge_stats[i as int]@);
            }
            total = total + self.challenge_stats[i].attempt_count() as u128;
            i = i + 1;
        }
        assert(self@.stats.take(i as int) =~= self@.stats);
        total as u32
    }

    /// The average of the best times, in whole seconds and rounded down;
    /// none where no challenge has a best time.
    pub fn average_solve_time(&self) -> (average: Option<Duration>)
        ensures
            average is Some <==> self@.average_solve_seconds() is Some,
            average is Some ==> average->0 == (Duration {
                secs: self@.average_solve_seconds()->0 as u64,
                nanos: 0,
            }) && self@.average_solve_seconds()->0 <= u64::MAX,
    {
        let mut total: u128 = 0;
        let mut count: u128 = 0;
        let mut i: usize = 0;
        let ghost pred = |s: ChallengeStatsView| s.best_time is Some;
        let ghost measure = |s: ChallengeStatsView|
            if s.best_time is Some {
                s.best_time->0.secs as nat
            } else {
                0nat
            };
        proof {
            assert(self@.stats.take(0) =~= Seq::empty());
        }
        while i < self.challenge_stats.len()
            invariant
                0 <= i <= self.challenge_stats.len(),
                self@.stats.len() == self.challenge_stats.len(),
                pred == (|s: ChallengeStatsView| s.best_time is Some),
                measure == (|s: ChallengeStatsView|
                    if s.best_time is Some {
                        s.best_time->0.secs as nat
                    } else {
                        0nat
                    }),
                total == sum_over(self@.stats.take(i as int), measure),
                count == count_matching(self@.stats.take(i as int), pred),
                count <= i,
                total <= count * 0xffff_ffff_ffff_ffff,
            decreases self.challenge_stats.len() - i,
        {
            proof {
                lemma_sum_step(self@.stats, measure, i as int);
                lemma_count_step(self@.stats, pred, i as int);
                assert(self@.stats[i as int] == self.challenge_stats[i as int]@);
            }
            if let Some(best) = self.challenge_stats[i].best_time() {
                total = total + best.as_secs() as u128;
                count = count + 1;
            }
            i = i + 1;
        }
        assert(self@.stats.take(i as int) =~= self@.stats);
        if count == 0 {
            return None;
        }
        let average: u128 = total / count;
        assert(average <= 0xffff_ffff_ffff_ffff) by (nonlinear_arith)
            requires
                average == total / count,
                count > 0,
                total <= count * 0xffff_ffff_ffff_ffff,
        ;
        Some(Duration::from_secs(average as u64))
    }

    /// The average of the best keystroke counts, rounded down; none where no
    /// challenge has a best keystroke count.
    pub fn average_keystrokes(&self) -> (average: Option<u32>)
        ensures
            average is Some <==> self@.average_keystrokes() is Some,
            average is Some ==> average->0 == self@.average_keystrokes()->0,
    {
        let mut total: u128 = 0;
        let mut count: u128 = 0;
        let mut i: usize = 0;
        let ghost pred = |s: ChallengeStatsView| s.best_keystrokes is Some;
        let ghost measure = |s: ChallengeStatsView|
            if s.best_keystrokes is Some {
                s.best_keystrokes->0 as nat
            } else {
                0nat
            };
        proof {
            assert(self@.stats.take(0) =~= Seq::empty());
        }
        while i < self.challenge_stats.len()
            invariant
                0 <= i <= self.challenge_stats.len(),
                self@.stats.len() == self.challenge_stats.len(),
                pred == (|s: ChallengeStatsView| s.best_keystrokes is Some),
                measure == (|s: ChallengeStatsView|
                    if s.best_keystrokes is Some {
                        s.best_keystrokes->0 as nat
                    } else {
                        0nat
                    }),
                total == sum_over(self@.stats.take(i as int), measure),
                count == count_matching(self@.stats.take(i as int), pred),
                count <= i,
                total <= count * 0xffff_ffff,
            decreases self.challenge_stats.len() - i,
        {
            proof {
                lemma_sum_step(self@.stats, measure, i as int);
                lemma_count_step(self@.stats, pred, i as int);
                assert(self@.stats[i as int] == self.challenge_stats[i as int]@);
            }
            if let Some(best) = self.challenge_stats[i].best_keystrokes() {
                total = total + best as u128;
                count = count + 1;
            }
            i = i + 1;
        }
        assert(self@.stats.take(i as int) =~= self@.stats);
        if count == 0 {
            return None;
        }
        let average: u128 = total / count;
        assert(average <= 0xffff_ffff) by (nonlinear_arith)
            requires
                average == total / count,
                count > 0,
                total <= count * 0xffff_ffff,
        ;
        Some(average as u32)
    }

    /// Unlocks the achievement `id` as of `unlocked_at`; nothing changes where
    /// it was unlocked before.
    pub fn unlock_achievement(&mut self, id: AchievementId, unlocked_at: Timestamp)
        ensures
            final(self)@ == old(self)@.unlock(id, unlocked_at),
            old(self)@.wf() ==> final(self)@.wf(),
    {
        if !self.is_achievement_unlocked(id) {
            self.unlocked_achievements.push(UnlockedAchievement::new(id, unlocked_at));
        }
    }

    /// Whether the achievement `id` is unlocked.
    pub fn is_achievement_unlocked(&self, id: AchievementId) -> (unlocked: bool)
        ensures
            unlocked == is_unlocked(self@.unlocked, id),
    {
        let mut i: usize = 0;
        while i < self.unlocked_achievements.len()
            invariant
                0 <= i <= self.unlocked_achievements.len(),
                self@.unlocked == self.unlocked_achievements@,
                forall|j: int| 0 <= j < i ==> (#[trigger] self@.unlocked[j]).id != id,
            decreases self.unlocked_achievements.len() - i,
        {
            if self.unlocked_achievements[i].id == id {
                return true;
            }
            i = i + 1;
        }
        false
    }

    /// The unlocked achievements by the time at which they were unlocked,
    /// the earliest first.
    pub fn unlocked_achievements(&self) -> (sorted: Vec<&UnlockedAchievement>)
        ensures
            is_sorted_by_unlock_time(
                self@.unlocked,
                sorted@.map_values(|u: &UnlockedAchievement| *u),
            ),
    {
        let mut keys: Vec<i128> = Vec::new();
        let mut i: usize = 0;
        while i < self.unlocked_achievements.len()
            invariant
                0 <= i <= self.unlocked_achievements.len(),
                self@.unlocked == self.unlocked_achievements@,
                keys@ == unlock_keys(self@.unlocked.take(i as int)),
            decreases self.unlocked_achievements.len() - i,
        {
            keys.push(self.unlocked_achievements[i].unlocked_at.rank());
            assert(unlock_keys(self@.unlocked.take(i + 1)) =~= unlock_keys(
                self@.unlocked.take(i as int),
            ).push(time_rank(self@.unlocked[i as int].unlocked_at)));
            i = i + 1;
        }
        assert(self@.unlocked.take(i as int) =~= self@.unlocked);
        let order = stable_order(&keys);
        let mut sorted: Vec<&UnlockedAchievement> = Vec::new();
        let mut k: usize = 0;
        while k < order.len()
            invariant
                0 <= k <= order.len(),
                self@.unlocked == self.unlocked_achievements@,
                is_stable_order(unlock_keys(self@.unlocked), order@),
                sorted.len() == k,
                forall|j: int| 0 <= j < k ==> *(#[trigger] sorted[j]) == self@.unlocked[order[j] as int],
            decreases order.len() - k,
        {
            sorted.push(&self.unlocked_achievements[order[k]]);
            k = k + 1;
        }
        proof {
            let views = sorted@.map_values(|u: &UnlockedAchievement| *u);
            assert forall|j: int| 0 <= j < views.len() implies #[trigger] views[j]
                == self@.unlocked[order[j] as int] by {
                assert(views[j] == *sorted[j]);
            }
        }
        sorted
    }

    /// The `limit` most recently attempted of the completed challenges, the
    /// most recent first.
    pub fn recently_completed(&self, limit: usize) -> (recent: Vec<&ChallengeStats>)
        ensures
            is_most_recent(
                self@.stats,
                limit as nat,
                recent@.map_values(|s: &ChallengeStats| s@),
            ),
    {
        let ghost stats = self@.stats;
        let mut picked: Vec<usize> = Vec::new();
        let mut keys: Vec<i128> = Vec::new();
        let mut i: usize = 0;
        while i < self.challenge_stats.len()
            invariant
                0 <= i <= self.challenge_stats.len(),
                stats == self@.stats,
                stats.len() == self.challenge_stats.len(),
                picks_completed(stats.take(i as int), picked@),
                keys@ == recency_keys(stats, picked@),
            decreases self.challenge_stats.len() - i,
        {
            assert(stats[i as int] == self.challenge_stats[i as int]@);
            let ghost before = picked@;
            if self.challenge_stats[i].is_completed() {
                let key: i128 = match self.challenge_stats[i].last_attempted_at() {
                    Some(at) => {
                        proof {
                            crate::time::lemma_rank_orders(at, at);
                        }
                        -at.rank()
                    },
                    None => i128::MAX,
                };
                picked.push(i);
                keys.push(key);
                proof {
                    assert(keys@ =~= recency_keys(stats, picked@));
                    assert forall|x: int|
                        0 <= x < i + 1 && (#[trigger] stats.take(i + 1)[x]).completed implies picked@.contains(
                        x as usize,
                    ) by {
                        if x < i {
                            assert(stats.take(i as int)[x].completed);
                            let w = choose|w: int| 0 <= w < before.len() && before[w] == x as usize;
                            assert(picked@[w] == x as usize);
                        } else {
                            assert(picked@[before.len() as int] == i);
                        }
                    }
                }
            } else {
                proof {
                    assert forall|x: int|
                        0 <= x < i + 1 && (#[trigger] stats.take(i + 1)[x]).completed implies picked@.contains(
                        x as usize,
                    ) by {
                        assert(stats.take(i as int)[x].completed);
                    }
                }
            }
            i = i + 1;
        }
        assert(stats.take(i as int) =~= stats);
        let order = stable_order(&keys);
        let count: usize = if limit < order.len() {
            limit
        } else {
            order.len()
        };
        let mut recent: Vec<&ChallengeStats> = Vec::new();
        let mut k: usize = 0;
        while k < count
            invariant
                0 <= k <= count <= order.len(),
                stats == self@.stats,
                stats.len() == self.challenge_stats.len(),
                picks_completed(stats, picked@),
                keys@ == recency_keys(stats, picked@),
                is_stable_order(keys@, order@),
                recent.len() == k,
                forall|j: int|
                    0 <= j < k ==> (#[trigger] recent[j])@ == stats[picked[order[j] as int] as int],
            decreases count - k,
        {
            let position = picked[order[k]];
            assert(stats[position as int] == self.challenge_stats[position as int]@);
            recent.push(&self.challenge_stats[position]);
            k = k + 1;
        }
        proof {
            let views = recent@.map_values(|s: &ChallengeStats| s@);
            assert forall|j: int| 0 <= j < views.len() implies #[trigger] views[j]
                == stats[picked[order[j] as int] as int] by {
                assert(views[j] == recent[j]@);
            }
        }
        recent
    }

    /// The number of unlocked achievements.
    pub fn achievement_count(&self) -> (count: usize)
        ensures
            count == self@.unlocked.len(),
    {
        self.unlocked_achievements.len()
    }

    /// The identifiers of the unlocked achievements, in the order in which
    /// they were unlocked.
    pub fn unlocked_achievement_ids(&self) -> (ids: Vec<AchievementId>)
        ensures
            ids@ == self@.unlocked.map_values(|u: UnlockedAchievement| u.id),
    {
        let mut ids: Vec<AchievementId> = Vec::new();
        let mut i: usize = 0;
        while i < self.unlocked_achievements.len()
            invariant
                0 <= i <= self.unlocked_achievements.len(),
                self@.unlocked == self.unlocked_achievements@,
                ids@ == self@.unlocked.take(i as int).map_values(|u: UnlockedAchievement| u.id),
            decreases self.unlocked_achievements.len() - i,
        {
            ids.push(self.unlocked_achievements[i].id);
            assert(self@.unlocked.take(i + 1).map_values(|u: UnlockedAchievement| u.id)
                =~= self@.unlocked.take(i as int).map_values(|u: UnlockedAchievement| u.id).push(
                self@.unlocked[i as int].id,
            ));
            i = i + 1;
        }
        assert(self@.unlocked.take(i as int) =~= self@.unlocked);
        ids
    }
}

impl Default for Progress {
    fn default() -> (progress: Self)
        ensures
            progress@ == ProgressView::empty(),
            progress@.wf(),
    {
        Progress::new()
    }
}

} // verus!
