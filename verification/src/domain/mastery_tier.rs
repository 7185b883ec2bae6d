//! Mastery tiers: a coarse grade derived from a challenge's best result.

use vstd::prelude::*;
use crate::time::Duration;

verus! {

/// Mastery tier for a challenge, from lowest to highest.
#[derive(Debug, Clone, Copy, PartialEq, Eq, PartialOrd, Ord, Structural)]
pub enum MasteryTier {
    Bronze,
    Silver,
    Gold,
}

/// Whether a result earns gold: under 15 seconds with a known keystroke count under 30.
pub open spec fn earns_gold(time: Duration, keystrokes: Option<u32>) -> bool {
    time.secs < 15 && keystrokes is Some && keystrokes->0 < 30
}

/// Whether a result earns at least silver: under 30 seconds with a known
/// keystroke count under 50.
pub open spec fn earns_silver(time: Duration, keystrokes: Option<u32>) -> bool {
    time.secs < 30 && keystrokes is Some && keystrokes->0 < 50
}

/// The tier of a completed result.
pub open spec fn tier_of(time: Duration, keystrokes: Option<u32>) -> MasteryTier {
    if earns_gold(time, keystrokes) {
        MasteryTier::Gold
    } else if earns_silver(time, keystrokes) {
        MasteryTier::Silver
    } else {
        MasteryTier::Bronze
    }
}

impl MasteryTier {
    /// Grades a completed result by its time and keystroke count.
    pub fn calculate(time: Duration, keystrokes: Option<u32>) -> (tier: MasteryTier)
        ensures
            tier == tier_of(time, keystrokes),
    {
        let time_secs: u64 = time.as_secs();
        match keystrokes {
            Some(ks) => {
                if time_secs < 15 && ks < 30 {
                    MasteryTier::Gold
                } else if time_secs < 30 && ks < 50 {
                    MasteryTier::Silver
                } else {
                    MasteryTier::Bronze
                }
            },
            None => MasteryTier::Bronze,
        }
    }

    /// The display name of the tier.
    pub fn name(&self) -> (s: &'static str)
        ensures
            s@ == match *self {
                MasteryTier::Bronze => "Bronze"@,
                MasteryTier::Silver => "Silver"@,
                MasteryTier::Gold => "Gold"@,
            },
    {
        match self {
            MasteryTier::Bronze => "Bronze",
            MasteryTier::Silver => "Silver",
            MasteryTier::Gold => "Gold",
        }
    }

    /// The medal that stands for the tier.
    pub fn emoji(&self) -> (s: &'static str)
        ensures
            s@ == match *self {
                MasteryTier::Bronze => "\u{1F949}"@,
                MasteryTier::Silver => "\u{1F948}"@,
                MasteryTier::Gold => "\u{1F947}"@,
            },
    {
        match self {
            MasteryTier::Bronze => "\u{1F949}",
            MasteryTier::Silver => "\u{1F948}",
            MasteryTier::Gold => "\u{1F947}",
        }
    }

    /// Whether `self` ranks strictly above `other`.
    pub fn outranks(&self, other: &MasteryTier) -> (b: bool)
        ensures
            b == (self.rank() > other.rank()),
    {
        self.rank_number() > other.rank_number()
    }

    /// The place of the tier on the ladder, from 0 for bronze.
    pub open spec fn rank(self) -> nat {
        match self {
            MasteryTier::Bronze => 0,
            MasteryTier::Silver => 1,
            MasteryTier::Gold => 2,
        }
    }

    /// The place of the tier on the ladder, from 0 for bronze.
    pub fn rank_number(&self) -> (n: u8)
        ensures
            n == self.rank(),
    {
        match self {
            MasteryTier::Bronze => 0,
            MasteryTier::Silver => 1,
            MasteryTier::Gold => 2,
        }
    }
}

} // verus!
