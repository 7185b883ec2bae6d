//! The progress screen: times and streaks in words, and the count of the
//! mastery tiers.

use vstd::prelude::*;
use vstd::string::*;
use crate::domain::challenge_stats::{ChallengeStats, ChallengeStatsView};
use crate::domain::mastery_tier::MasteryTier;
use crate::domain::progress::{Progress, count_matching, lemma_count_step};
use crate::text::{decimal, push_char, push_decimal};
use crate::time::Duration;
use crate::ui::key::Key;

verus! {

/// A practice time in words: hours and minutes from one hour on, minutes
/// from one minute on, else seconds.
pub open spec fn practice_time_text(secs: nat) -> Seq<char> {
    let hours = secs / 3600;
    let minutes = (secs % 3600) / 60;
    if hours > 0 {
        decimal(hours) + "h "@ + decimal(minutes) + "m"@
    } else if minutes > 0 {
        decimal(minutes) + "m"@
    } else {
        decimal(secs) + "s"@
    }
}

/// A solve time in words: minutes and seconds from one minute on, else
/// seconds.
pub open spec fn solve_time_text(secs: nat) -> Seq<char> {
    if secs >= 60 {
        decimal(secs / 60) + "m "@ + decimal(secs % 60) + "s"@
    } else {
        decimal(secs) + "s"@
    }
}

/// A streak in words: the days, with a flame where there are any.
pub open spec fn streak_text(days: nat) -> Seq<char> {
    if days > 0 {
        decimal(days) + " days \u{1F525}"@
    } else {
        "0 days"@
    }
}

/// The number of challenges at the tier `tier`.
pub open spec fn tier_count(stats: Seq<ChallengeStatsView>, tier: MasteryTier) -> nat {
    count_matching(stats, |s: ChallengeStatsView| s.mastery_tier() == Some(tier))
}

/// The keys that leave the progress screen: escape, `q`, enter and space.
pub open spec fn leaves_progress_screen(key: Key) -> bool {
    key == Key::Esc || key == Key::Char('q') || key == Key::Enter || key == Key::Char(' ')
}

/// The progress screen. It holds no state.
#[derive(Debug)]
pub struct ProgressScreen;

impl ProgressScreen {
    /// The screen.
    pub fn new() -> (screen: Self) {
        ProgressScreen
    }

    /// Whether a key leaves the screen.
    pub fn is_dismiss_key(key: Key) -> (leaves: bool)
        ensures
            leaves == leaves_progress_screen(key),
    {
        match key {
            Key::Esc | Key::Char('q') | Key::Enter | Key::Char(' ') => true,
            _ => false,
        }
    }

    /// A practice time in words.
    pub fn format_duration(duration: Duration) -> (text: String)
        ensures
            text@ == practice_time_text(duration.secs as nat),
    {
        let total_secs = duration.as_secs();
        let hours = total_secs / 3600;
        let minutes = (total_secs % 3600) / 60;
        let mut text = String::new();
        proof {
            reveal_strlit("m");
            reveal_strlit("s");
        }
        if hours > 0 {
            push_decimal(&mut text, hours as u128);
            text.append("h ");
            push_decimal(&mut text, minutes as u128);
            push_char(&mut text, 'm');
        } else if minutes > 0 {
            push_decimal(&mut text, minutes as u128);
            push_char(&mut text, 'm');
        } else {
            push_decimal(&mut text, total_secs as u128);
            push_char(&mut text, 's');
        }
        assert(text@ =~= practice_time_text(duration.secs as nat));
        text
    }

    /// A solve time in words.
    pub fn format_solve_time(duration: Duration) -> (text: String)
        ensures
            text@ == solve_time_text(duration.secs as nat),
    {
        let total_secs = duration.as_secs();
        let mut text = String::new();
        proof {
            reveal_strlit("s");
        }
        if total_secs >= 60 {
            push_decimal(&mut text, (total_secs / 60) as u128);
            text.append("m ");
            push_decimal(&mut text, (total_secs % 60) as u128);
            push_char(&mut text, 's');
        } else {
            push_decimal(&mut text, total_secs as u128);
            push_char(&mut text, 's');
        }
        assert(text@ =~= solve_time_text(duration.secs as nat));
        text
    }

    /// A streak in words.
    pub fn format_streak(days: u32) -> (text: String)
        ensures
            text@ == streak_text(days as nat),
    {
        let mut text = String::new();
        if days > 0 {
            push_decimal(&mut text, days as u128);
            text.append(" days \u{1F525}");
        } else {
            text.append("0 days");
        }
        assert(text@ =~= streak_text(days as nat));
        text
    }

    /// The number of challenges at each tier: gold, silver, bronze.
    pub fn tier_counts(progress: &Progress) -> (counts: (usize, usize, usize))
        ensures
            counts.0 == tier_count(progress@.stats, MasteryTier::Gold),
            counts.1 == tier_count(progress@.stats, MasteryTier::Silver),
            counts.2 == tier_count(progress@.stats, MasteryTier::Bronze),
    {
        let stats = progress.all_challenge_stats();
        let ghost views = progress@.stats;
        let ghost is_gold = |s: ChallengeStatsView| s.mastery_tier() == Some(MasteryTier::Gold);
        let ghost is_silver = |s: ChallengeStatsView| s.mastery_tier() == Some(MasteryTier::Silver);
        let ghost is_bronze = |s: ChallengeStatsView| s.mastery_tier() == Some(MasteryTier::Bronze);
        let mut gold: usize = 0;
        let mut silver: usize = 0;
        let mut bronze: usize = 0;
        let mut i: usize = 0;
        proof {
            assert(views.take(0) =~= Seq::empty());
        }
        while i < stats.len()
            invariant
                0 <= i <= stats.len(),
                views == progress@.stats,
                views == stats@.map_values(|s: ChallengeStats| s@),
                is_gold == (|s: ChallengeStatsView| s.mastery_tier() == Some(MasteryTier::Gold)),
                is_silver == (|s: ChallengeStatsView| s.mastery_tier() == Some(MasteryTier::Silver)),
                is_bronze == (|s: ChallengeStatsView| s.mastery_tier() == Some(MasteryTier::Bronze)),
                gold == count_matching(views.take(i as int), is_gold),
                silver == count_matching(views.take(i as int), is_silver),
                bronze == count_matching(views.take(i as int), is_bronze),
                gold <= i,
                silver <= i,
                bronze <= i,
            decreases stats.len() - i,
        {
            proof {
                lemma_count_step(views, is_gold, i as int);
                lemma_count_step(views, is_silver, i as int);
                lemma_count_step(views, is_bronze, i as int);
            }
            match stats[i].mastery_tier() {
                Some(MasteryTier::Gold) => {
                    gold = gold + 1;
                },
                Some(MasteryTier::Silver) => {
                    silver = silver + 1;
                },
                Some(MasteryTier::Bronze) => {
                    bronze = bronze + 1;
                },
                None => {},
            }
            i = i + 1;
        }
        assert(views.take(i as int) =~= views);
        (gold, silver, bronze)
    }
}

impl Default for ProgressScreen {
    fn default() -> (screen: Self) {
        ProgressScreen::new()
    }
}

} // verus!
