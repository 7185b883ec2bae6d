//! The achievement engine: which achievements a progress has earned, and the
//! unlocking of those that are new.

use vstd::prelude::*;
use crate::domain::achievement::{Achievement, AchievementId, UnlockedAchievement, catalog, lemma_catalog_complete};
use crate::domain::challenge_stats::{ChallengeStats, ChallengeStatsView};
use crate::domain::mastery_tier::MasteryTier;
use crate::domain::progress::{
    Progress, ProgressView, completed_count, count_matching, is_unlocked, lemma_count_step,
};
use crate::time::{Timestamp, current_time};

verus! {

/// Whether a challenge has a best time of under `limit` whole seconds.
pub open spec fn is_faster_than(stats: ChallengeStatsView, limit: nat) -> bool {
    stats.best_time is Some && stats.best_time->0.secs < limit
}

/// Whether a challenge has a best keystroke count of under `limit`.
pub open spec fn is_leaner_than(stats: ChallengeStatsView, limit: nat) -> bool {
    stats.best_keystrokes is Some && stats.best_keystrokes->0 < limit
}

/// The number of challenges with a best time of under `limit` whole seconds.
pub open spec fn fast_count(stats: Seq<ChallengeStatsView>, limit: nat) -> nat {
    count_matching(stats, |s: ChallengeStatsView| is_faster_than(s, limit))
}

/// The number of challenges with a best keystroke count of under `limit`.
pub open spec fn lean_count(stats: Seq<ChallengeStatsView>, limit: nat) -> nat {
    count_matching(stats, |s: ChallengeStatsView| is_leaner_than(s, limit))
}

/// The number of challenges at gold tier.
pub open spec fn gold_count(stats: Seq<ChallengeStatsView>) -> nat {
    count_matching(stats, |s: ChallengeStatsView| s.mastery_tier() == Some(MasteryTier::Gold))
}

/// Half of `total`, rounded up.
pub open spec fn half_rounded_up(total: nat) -> nat {
    total / 2 + total % 2
}

/// Whether a progress meets what the achievement `id` asks for, with
/// `total` challenges on offer.
pub open spec fn is_earned(id: AchievementId, progress: ProgressView, total: nat) -> bool {
    match id {
        AchievementId::FirstSteps => completed_count(progress.stats) >= 1,
        AchievementId::SpeedDemon => fast_count(progress.stats, 10) >= 10,
        AchievementId::LightningFast => fast_count(progress.stats, 5) >= 1,
        AchievementId::Perfectionist => lean_count(progress.stats, 20) >= 1,
        AchievementId::EfficiencyExpert => progress.average_keystrokes() is Some
            && progress.average_keystrokes()->0 < 40,
        AchievementId::ConsistentLearner => progress.longest_streak >= 7,
        AchievementId::DedicatedPractitioner => progress.longest_streak >= 30,
        AchievementId::ChallengeMaster => gold_count(progress.stats) >= 25,
        AchievementId::GoldRush => gold_count(progress.stats) >= 10,
        AchievementId::Completionist => completed_count(progress.stats) >= total && total > 0,
        AchievementId::HalfwayThere => completed_count(progress.stats) >= half_rounded_up(total),
        AchievementId::CenturyClub => completed_count(progress.stats) >= 100,
    }
}

/// Whether an achievement is earned depends on the statistics and the longest
/// streak alone.
pub proof fn lemma_earned_reads_results_only(
    id: AchievementId,
    a: ProgressView,
    b: ProgressView,
    total: nat,
)
    requires
        a.stats == b.stats,
        a.longest_streak == b.longest_streak,
    ensures
        is_earned(id, a, total) == is_earned(id, b, total),
{
    assert(a.average_keystrokes() == b.average_keystrokes());
}

/// Whether the achievement `id` is to be unlocked now: it is earned and was
/// not unlocked before.
pub open spec fn is_new(id: AchievementId, progress: ProgressView, total: nat) -> bool {
    !is_unlocked(progress.unlocked, id) && is_earned(id, progress, total)
}

/// Those of `ids` that are to be unlocked now, in the order of `ids`.
pub open spec fn new_among(ids: Seq<AchievementId>, progress: ProgressView, total: nat) -> Seq<
    AchievementId,
>
    decreases ids.len(),
{
    if ids.len() == 0 {
        Seq::empty()
    } else if is_new(ids.last(), progress, total) {
        new_among(ids.drop_last(), progress, total).push(ids.last())
    } else {
        new_among(ids.drop_last(), progress, total)
    }
}

/// The achievements that a check unlocks, in catalog order.
pub open spec fn newly_earned(progress: ProgressView, total: nat) -> Seq<AchievementId> {
    new_among(catalog(), progress, total)
}

/// The records of achievements unlocked together at `now`.
pub open spec fn unlocked_at(ids: Seq<AchievementId>, now: Timestamp) -> Seq<UnlockedAchievement> {
    ids.map_values(|id: AchievementId| UnlockedAchievement { id, unlocked_at: now })
}

/// The progress after a check at the time `now`: the newly earned
/// achievements are unlocked as of `now`, and nothing else changes.
pub open spec fn after_check(progress: ProgressView, total: nat, now: Timestamp) -> ProgressView {
    ProgressView {
        unlocked: progress.unlocked + unlocked_at(newly_earned(progress, total), now),
        ..progress
    }
}

/// What `new_among` selects: exactly those of `ids` that are new, each as
/// often as it occurs in `ids`, and in the order of `ids`.
pub proof fn lemma_new_among(ids: Seq<AchievementId>, progress: ProgressView, total: nat)
    ensures
        new_among(ids, progress, total).len() <= ids.len(),
        forall|k: int|
            0 <= k < new_among(ids, progress, total).len() ==> is_new(
                #[trigger] new_among(ids, progress, total)[k],
                progress,
                total,
            ) && ids.contains(new_among(ids, progress, total)[k]),
        forall|i: int|
            0 <= i < ids.len() && is_new(#[trigger] ids[i], progress, total) ==> new_among(
                ids,
                progress,
                total,
            ).contains(ids[i]),
        ids.no_duplicates() ==> new_among(ids, progress, total).no_duplicates(),
    decreases ids.len(),
{
    if ids.len() > 0 {
        let rest = ids.drop_last();
        let chosen = new_among(rest, progress, total);
        let result = new_among(ids, progress, total);
        lemma_new_among(rest, progress, total);
        assert forall|k: int| 0 <= k < result.len() implies is_new(
            #[trigger] result[k],
            progress,
            total,
        ) && ids.contains(result[k]) by {
            if k < chosen.len() {
                assert(result[k] == chosen[k]);
                let w = choose|w: int| 0 <= w < rest.len() && rest[w] == chosen[k];
                assert(ids[w] == result[k]);
            } else {
                assert(result[k] == ids.last());
                assert(ids[ids.len() - 1] == result[k]);
            }
        }
        assert forall|i: int|
            0 <= i < ids.len() && is_new(#[trigger] ids[i], progress, total) implies result.contains(
            ids[i],
        ) by {
            if i < rest.len() {
                assert(rest[i] == ids[i]);
                assert(chosen.contains(rest[i]));
                let w = choose|w: int| 0 <= w < chosen.len() && chosen[w] == rest[i];
                assert(result[w] == ids[i]);
            } else {
                assert(result[result.len() - 1] == ids[i]);
            }
        }
        if ids.no_duplicates() {
            assert(rest.no_duplicates());
            assert forall|a: int, b: int|
                0 <= a < result.len() && 0 <= b < result.len() && a != b implies result[a]
                != result[b] by {
                if a < chosen.len() && b < chosen.len() {
                } else {
                    let inner = if a < chosen.len() {
                        a
                    } else {
                        b
                    };
                    assert(rest.contains(chosen[inner]));
                    let w = choose|w: int| 0 <= w < rest.len() && rest[w] == chosen[inner];
                    assert(ids[w] != ids[ids.len() - 1]);
                }
            }
        }
    }
}

/// A check leaves a well-formed progress well formed: no achievement is
/// unlocked twice.
pub proof fn lemma_check_keeps_wf(progress: ProgressView, total: nat, now: Timestamp)
    requires
        progress.wf(),
    ensures
        after_check(progress, total, now).wf(),
{
    let new = newly_earned(progress, total);
    let after = after_check(progress, total, now).unlocked;
    lemma_catalog_complete();
    lemma_new_among(catalog(), progress, total);
    let n = progress.unlocked.len() as int;
    assert forall|i: int, j: int|
        0 <= i < after.len() && 0 <= j < after.len() && i != j implies (#[trigger] after[i]).id != (
    #[trigger] after[j]).id by {
        if i < n && j < n {
        } else if i >= n && j >= n {
            assert(after[i].id == new[i - n]);
            assert(after[j].id == new[j - n]);
        } else {
            let (old_index, new_index) = if i < n {
                (i, j)
            } else {
                (j, i)
            };
            assert(after[new_index].id == new[new_index - n]);
            assert(is_new(new[new_index - n], progress, total));
            assert(progress.unlocked[old_index].id == after[old_index].id);
        }
    }
}

/// A second check that follows a first with no attempt in between unlocks
/// nothing: every earned achievement is unlocked by then.
pub proof fn lemma_check_is_idempotent(progress: ProgressView, total: nat, now: Timestamp)
    ensures
        newly_earned(after_check(progress, total, now), total) == Seq::<AchievementId>::empty(),
{
    let after = after_check(progress, total, now);
    let first = newly_earned(progress, total);
    let second = newly_earned(after, total);
    lemma_new_among(catalog(), progress, total);
    lemma_new_among(catalog(), after, total);
    if second.len() > 0 {
        let id = second[0];
        assert(is_new(id, after, total));
        assert(is_earned(id, progress, total));
        let n = progress.unlocked.len() as int;
        if is_unlocked(progress.unlocked, id) {
            let w = choose|w: int| 0 <= w < n && (#[trigger] progress.unlocked[w]).id == id;
            assert(after.unlocked[w].id == id);
        } else {
            assert(catalog().contains(id));
            let c = choose|c: int| 0 <= c < catalog().len() && catalog()[c] == id;
            assert(is_new(catalog()[c], progress, total));
            assert(first.contains(id));
            let w = choose|w: int| 0 <= w < first.len() && first[w] == id;
            assert(after.unlocked[n + w].id == id);
        }
        assert(false);
    }
    assert(second =~= Seq::<AchievementId>::empty());
}

/// The number of entries with a best time of under `limit` whole seconds.
fn count_faster_than(stats: &Vec<ChallengeStats>, limit: u64) -> (count: usize)
    ensures
        count == fast_count(stats@.map_values(|s: ChallengeStats| s@), limit as nat),
{
    let ghost views = stats@.map_values(|s: ChallengeStats| s@);
    let ghost pred = |s: ChallengeStatsView| is_faster_than(s, limit as nat);
    let mut count: usize = 0;
    let mut i: usize = 0;
    proof {
        assert(views.take(0) =~= Seq::empty());
    }
    while i < stats.len()
        invariant
            0 <= i <= stats.len(),
            views == stats@.map_values(|s: ChallengeStats| s@),
            pred == (|s: ChallengeStatsView| is_faster_than(s, limit as nat)),
            count == count_matching(views.take(i as int), pred),
            count <= i,
        decreases stats.len() - i,
    {
        proof {
            lemma_count_step(views, pred, i as int);
        }
        if let Some(best) = stats[i].best_time() {
            if best.as_secs() < limit {
                count = count + 1;
            }
        }
        i = i + 1;
    }
    assert(views.take(i as int) =~= views);
    count
}

/// The number of entries with a best keystroke count of under `limit`.
fn count_leaner_than(stats: &Vec<ChallengeStats>, limit: u32) -> (count: usize)
    ensures
        count == lean_count(stats@.map_values(|s: ChallengeStats| s@), limit as nat),
{
    let ghost views = stats@.map_values(|s: ChallengeStats| s@);
    let ghost pred = |s: ChallengeStatsView| is_leaner_than(s, limit as nat);
    let mut count: usize = 0;
    let mut i: usize = 0;
    proof {
        assert(views.take(0) =~= Seq::empty());
    }
    while i < stats.len()
        invariant
            0 <= i <= stats.len(),
            views == stats@.map_values(|s: ChallengeStats| s@),
            pred == (|s: ChallengeStatsView| is_leaner_than(s, limit as nat)),
            count == count_matching(views.take(i as int), pred),
            count <= i,
        decreases stats.len() - i,
    {
        proof {
            lemma_count_step(views, pred, i as int);
        }
        if let Some(best) = stats[i].best_keystrokes() {
            if best < limit {
                count = count + 1;
            }
        }
        i = i + 1;
    }
    assert(views.take(i as int) =~= views);
    count
}

/// The number of entries at gold tier.
fn count_gold(stats: &Vec<ChallengeStats>) -> (count: usize)
    ensures
        count == gold_count(stats@.map_values(|s: ChallengeStats| s@)),
{
    let ghost views = stats@.map_values(|s: ChallengeStats| s@);
    let ghost pred = |s: ChallengeStatsView| s.mastery_tier() == Some(MasteryTier::Gold);
    let mut count: usize = 0;
    let mut i: usize = 0;
    proof {
        assert(views.take(0) =~= Seq::empty());
    }
    while i < stats.len()
        invariant
            0 <= i <= stats.len(),
            views == stats@.map_values(|s: ChallengeStats| s@),
            pred == (|s: ChallengeStatsView| s.mastery_tier() == Some(MasteryTier::Gold)),
            count == count_matching(views.take(i as int), pred),
            count <= i,
        decreases stats.len() - i,
    {
        proof {
            lemma_count_step(views, pred, i as int);
        }
        if let Some(tier) = stats[i].mastery_tier() {
            if tier == MasteryTier::Gold {
                count = count + 1;
            }
        }
        i = i + 1;
    }
    assert(views.take(i as int) =~= views);
    count
}

/// The service that checks and unlocks achievements. It holds no state.
pub struct AchievementChecker;

impl AchievementChecker {
    /// Whether `progress` meets what the achievement `id` asks for, with
    /// `total_challenges` challenges on offer.
    pub fn check_achievement(id: AchievementId, progress: &Progress, total_challenges: usize) -> (earned: bool)
        ensures
            earned == is_earned(id, progress@, total_challenges as nat),
    {
        match id {
            AchievementId::FirstSteps => progress.total_completed() >= 1,
            AchievementId::SpeedDemon => count_faster_than(progress.all_challenge_stats(), 10)
                >= 10,
            AchievementId::LightningFast => count_faster_than(progress.all_challenge_stats(), 5)
                >= 1,
            AchievementId::Perfectionist => count_leaner_than(progress.all_challenge_stats(), 20)
                >= 1,
            AchievementId::EfficiencyExpert => match progress.average_keystrokes() {
                Some(average) => average < 40,
                None => false,
            },
            AchievementId::ConsistentLearner => progress.longest_streak() >= 7,
            AchievementId::DedicatedPractitioner => progress.longest_streak() >= 30,
            AchievementId::ChallengeMaster => count_gold(progress.all_challenge_stats()) >= 25,
            AchievementId::GoldRush => count_gold(progress.all_challenge_stats()) >= 10,
            AchievementId::Completionist => progress.total_completed() >= total_challenges
                && total_challenges > 0,
            AchievementId::HalfwayThere => {
                let halfway = total_challenges / 2 + total_challenges % 2;
                progress.total_completed() >= halfway
            },
            AchievementId::CenturyClub => progress.total_completed() >= 100,
        }
    }

    /// Unlocks, as of `now`, every achievement that `progress` has earned and
    /// that was not unlocked before, and returns them in catalog order.
    /// Achievements unlocked before are neither checked nor returned again.
    pub fn check_achievements_at(
        progress: &mut Progress,
        total_challenges: usize,
        now: Timestamp,
    ) -> (newly_unlocked: Vec<Achievement>)
        ensures
            final(progress)@ == after_check(old(progress)@, total_challenges as nat, now),
            newly_unlocked.len() == newly_earned(old(progress)@, total_challenges as nat).len(),
            forall|k: int|
                0 <= k < newly_unlocked.len() ==> (#[trigger] newly_unlocked[k]).spec_id()
                    == newly_earned(old(progress)@, total_challenges as nat)[k]
                    && newly_unlocked[k].wf(),
            old(progress)@.wf() ==> final(progress)@.wf(),
    {
        let ghost before = progress@;
        let ghost total = total_challenges as nat;
        let mut newly_unlocked: Vec<Achievement> = Vec::new();
        let already_unlocked = progress.unlocked_achievement_ids();
        let ids = AchievementId::all();
        let mut i: usize = 0;
        proof {
            lemma_catalog_complete();
            assert(ids@.take(0) =~= Seq::empty());
            assert(before.unlocked + unlocked_at(Seq::empty(), now) =~= before.unlocked);
        }
        while i < ids.len()
            invariant
                0 <= i <= ids.len(),
                ids@ == catalog(),
                total == total_challenges as nat,
                already_unlocked@ == before.unlocked.map_values(|u: UnlockedAchievement| u.id),
                progress@ == (ProgressView {
                    unlocked: before.unlocked + unlocked_at(
                        new_among(ids@.take(i as int), before, total),
                        now,
                    ),
                    ..before
                }),
                newly_unlocked.len() == new_among(ids@.take(i as int), before, total).len(),
                forall|k: int|
                    0 <= k < newly_unlocked.len() ==> (#[trigger] newly_unlocked[k]).spec_id()
                        == new_among(ids@.take(i as int), before, total)[k]
                        && newly_unlocked[k].wf(),
            decreases ids.len() - i,
        {
            let id = ids[i];
            let ghost chosen = new_among(ids@.take(i as int), before, total);
            proof {
                assert(ids@.take(i + 1).drop_last() =~= ids@.take(i as int));
                assert(ids@.take(i + 1).last() == id);
                assert(new_among(ids@.take(i + 1), before, total) == if is_new(
                    id,
                    before,
                    total,
                ) {
                    chosen.push(id)
                } else {
                    chosen
                });
                lemma_new_among(ids@.take(i as int), before, total);
            }
            let was_unlocked = contains_id(&already_unlocked, id);
            assert(was_unlocked == is_unlocked(before.unlocked, id)) by {
                if was_unlocked {
                    let w = choose|w: int|
                        0 <= w < already_unlocked.len() && already_unlocked[w] == id;
                    assert(before.unlocked[w].id == id);
                } else {
                    if is_unlocked(before.unlocked, id) {
                        let w = choose|w: int|
                            0 <= w < before.unlocked.len() && (#[trigger] before.unlocked[w]).id
                                == id;
                        assert(already_unlocked[w] == id);
                    }
                }
            }
            if !was_unlocked {
                let earned = Self::check_achievement(id, progress, total_challenges);
                proof {
                    lemma_earned_reads_results_only(id, progress@, before, total);
                }
                if earned {
                    proof {
                        // `id` is not among those unlocked in this very check.
                        if is_unlocked(progress@.unlocked, id) {
                            let w = choose|w: int|
                                0 <= w < progress@.unlocked.len() && (
                                #[trigger] progress@.unlocked[w]).id == id;
                            let n = before.unlocked.len() as int;
                            if w < n {
                                assert(before.unlocked[w].id == id);
                            } else {
                                assert(chosen[w - n] == id);
                                assert(ids@.take(i as int).contains(chosen[w - n]));
                                let c = choose|c: int|
                                    0 <= c < i && ids@.take(i as int)[c] == chosen[w - n];
                                assert(catalog()[c] == catalog()[i as int]);
                            }
                            assert(false);
                        }
                    }
                    progress.unlock_achievement(id, now);
                    newly_unlocked.push(Achievement::get(id));
                    assert(progress@.unlocked =~= before.unlocked + unlocked_at(
                        chosen.push(id),
                        now,
                    ));
                }
            }
            i = i + 1;
        }
        proof {
            assert(ids@.take(i as int) =~= ids@);
            if before.wf() {
                lemma_check_keeps_wf(before, total, now);
            }
        }
        newly_unlocked
    }

    /// Unlocks, as of the present time, every achievement that `progress`
    /// has earned and that was not unlocked before, and returns them in
    /// catalog order.
    pub fn check_achievements(progress: &mut Progress, total_challenges: usize) -> (newly_unlocked: Vec<
        Achievement,
    >)
        ensures
            exists|now: Timestamp|
                final(progress)@ == #[trigger] after_check(
                    old(progress)@,
                    total_challenges as nat,
                    now,
                ),
            newly_unlocked.len() == newly_earned(old(progress)@, total_challenges as nat).len(),
            forall|k: int|
                0 <= k < newly_unlocked.len() ==> (#[trigger] newly_unlocked[k]).spec_id()
                    == newly_earned(old(progress)@, total_challenges as nat)[k]
                    && newly_unlocked[k].wf(),
            old(progress)@.wf() ==> final(progress)@.wf(),
    {
        let now = current_time();
        Self::check_achievements_at(progress, total_challenges, now)
    }
}

/// Whether `ids` holds `id`.
fn contains_id(ids: &Vec<AchievementId>, id: AchievementId) -> (found: bool)
    ensures
        found == ids@.contains(id),
{
    let mut i: usize = 0;
    while i < ids.len()
        invariant
            0 <= i <= ids.len(),
            forall|j: int| 0 <= j < i ==> ids[j] != id,
        decreases ids.len() - i,
    {
        if ids[i] == id {
            return true;
        }
        i = i + 1;
    }
    false
}

} // verus!
