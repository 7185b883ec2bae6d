//! The fixed catalog of achievements and the record of an unlocked one.

use vstd::prelude::*;
use crate::time::{Duration, Timestamp};

verus! {

/// Identifier of an achievement. The catalog is closed: these twelve and no
/// others.
#[derive(Debug, Clone, Copy, PartialEq, Eq, Hash, Structural)]
pub enum AchievementId {
    SpeedDemon,
    LightningFast,
    Perfectionist,
    EfficiencyExpert,
    ConsistentLearner,
    DedicatedPractitioner,
    ChallengeMaster,
    GoldRush,
    Completionist,
    FirstSteps,
    HalfwayThere,
    CenturyClub,
}

/// The catalog in the order in which achievements are checked and reported.
pub open spec fn catalog() -> Seq<AchievementId> {
    seq![
        AchievementId::FirstSteps,
        AchievementId::SpeedDemon,
        AchievementId::LightningFast,
        AchievementId::Perfectionist,
        AchievementId::EfficiencyExpert,
        AchievementId::ConsistentLearner,
        AchievementId::DedicatedPractitioner,
        AchievementId::ChallengeMaster,
        AchievementId::GoldRush,
        AchievementId::Completionist,
        AchievementId::HalfwayThere,
        AchievementId::CenturyClub,
    ]
}

/// The place of an identifier in the catalog.
pub open spec fn catalog_position(id: AchievementId) -> int {
    match id {
        AchievementId::FirstSteps => 0,
        AchievementId::SpeedDemon => 1,
        AchievementId::LightningFast => 2,
        AchievementId::Perfectionist => 3,
        AchievementId::EfficiencyExpert => 4,
        AchievementId::ConsistentLearner => 5,
        AchievementId::DedicatedPractitioner => 6,
        AchievementId::ChallengeMaster => 7,
        AchievementId::GoldRush => 8,
        AchievementId::Completionist => 9,
        AchievementId::HalfwayThere => 10,
        AchievementId::CenturyClub => 11,
    }
}

/// The catalog holds every identifier, each exactly once.
pub proof fn lemma_catalog_complete()
    ensures
        catalog().len() == 12,
        forall|id: AchievementId|
            0 <= #[trigger] catalog_position(id) < 12 && catalog()[catalog_position(id)] == id,
        forall|i: int, j: int|
            0 <= i < j < 12 ==> catalog()[i] != catalog()[j],
{
    let c = catalog();
    assert forall|i: int, j: int| 0 <= i < j < 12 implies c[i] != c[j] by {
        assert(catalog_position(c[i]) == i);
        assert(catalog_position(c[j]) == j);
    }
}

impl AchievementId {
    /// All achievement identifiers, in catalog order.
    pub fn all() -> (ids: Vec<AchievementId>)
        ensures
            ids@ == catalog(),
    {
        let ids = vec![
            AchievementId::FirstSteps,
            AchievementId::SpeedDemon,
            AchievementId::LightningFast,
            AchievementId::Perfectionist,
            AchievementId::EfficiencyExpert,
            AchievementId::ConsistentLearner,
            AchievementId::DedicatedPractitioner,
            AchievementId::ChallengeMaster,
            AchievementId::GoldRush,
            AchievementId::Completionist,
            AchievementId::HalfwayThere,
            AchievementId::CenturyClub,
        ];
        assert(ids@ =~= catalog());
        ids
    }
}

/// An achievement as shown to the user.
#[derive(Debug, Clone)]
pub struct Achievement {
    id: AchievementId,
    name: &'static str,
    description: &'static str,
    badge: &'static str,
}

/// The display name of an achievement.
pub open spec fn name_of(id: AchievementId) -> Seq<char> {
    match id {
        AchievementId::FirstSteps => "First Steps"@,
        AchievementId::SpeedDemon => "Speed Demon"@,
        AchievementId::LightningFast => "Lightning Fast"@,
        AchievementId::Perfectionist => "Perfectionist"@,
        AchievementId::EfficiencyExpert => "Efficiency Expert"@,
        AchievementId::ConsistentLearner => "Consistent Learner"@,
        AchievementId::DedicatedPractitioner => "Dedicated Practitioner"@,
        AchievementId::ChallengeMaster => "Challenge Master"@,
        AchievementId::GoldRush => "Gold Rush"@,
        AchievementId::Completionist => "Completionist"@,
        AchievementId::HalfwayThere => "Halfway There"@,
        AchievementId::CenturyClub => "Century Club"@,
    }
}

/// What an achievement asks for, in words.
pub open spec fn description_of(id: AchievementId) -> Seq<char> {
    match id {
        AchievementId::FirstSteps => "Complete your first challenge"@,
        AchievementId::SpeedDemon => "Complete 10 challenges under 10 seconds"@,
        AchievementId::LightningFast => "Complete a challenge in under 5 seconds"@,
        AchievementId::Perfectionist => "Complete a challenge with under 20 keystrokes"@,
        AchievementId::EfficiencyExpert => "Maintain an average under 40 keystrokes across all completions"@,
        AchievementId::ConsistentLearner => "Practice 7 days in a row"@,
        AchievementId::DedicatedPractitioner => "Practice 30 days in a row"@,
        AchievementId::ChallengeMaster => "Achieve gold tier on 25 challenges"@,
        AchievementId::GoldRush => "Achieve gold tier on 10 challenges in a row"@,
        AchievementId::Completionist => "Complete all available challenges"@,
        AchievementId::HalfwayThere => "Complete 50% of available challenges"@,
        AchievementId::CenturyClub => "Complete 100 challenges total"@,
    }
}

/// The badge of an achievement.
pub open spec fn badge_of(id: AchievementId) -> Seq<char> {
    match id {
        AchievementId::FirstSteps => "\u{1F463}"@,
        AchievementId::SpeedDemon => "\u{26A1}"@,
        AchievementId::LightningFast => "\u{26A1}\u{26A1}"@,
        AchievementId::Perfectionist => "\u{1F48E}"@,
        AchievementId::EfficiencyExpert => "\u{1F3AF}"@,
        AchievementId::ConsistentLearner => "\u{1F525}"@,
        AchievementId::DedicatedPractitioner => "\u{1F525}\u{1F525}"@,
        AchievementId::ChallengeMaster => "\u{1F3C6}"@,
        AchievementId::GoldRush => "\u{1F947}"@,
        AchievementId::Completionist => "\u{2728}"@,
        AchievementId::HalfwayThere => "\u{1F396}\u{FE0F}"@,
        AchievementId::CenturyClub => "\u{1F4AF}"@,
    }
}

impl Achievement {
    /// The identifier of the achievement.
    pub closed spec fn spec_id(&self) -> AchievementId {
        self.id
    }

    /// The achievement carries the name, description and badge that the
    /// catalog gives its identifier.
    pub closed spec fn wf(&self) -> bool {
        &&& self.name@ == name_of(self.id)
        &&& self.description@ == description_of(self.id)
        &&& self.badge@ == badge_of(self.id)
    }

    /// The catalog entry of an identifier.
    pub fn get(id: AchievementId) -> (achievement: Self)
        ensures
            achievement.spec_id() == id,
            achievement.wf(),
    {
        match id {
            AchievementId::FirstSteps => Achievement {
                id,
                name: "First Steps",
                description: "Complete your first challenge",
                badge: "\u{1F463}",
            },
            AchievementId::SpeedDemon => Achievement {
                id,
                name: "Speed Demon",
                description: "Complete 10 challenges under 10 seconds",
                badge: "\u{26A1}",
            },
            AchievementId::LightningFast => Achievement {
                id,
                name: "Lightning Fast",
                description: "Complete a challenge in under 5 seconds",
                badge: "\u{26A1}\u{26A1}",
            },
            AchievementId::Perfectionist => Achievement {
                id,
                name: "Perfectionist",
                description: "Complete a challenge with under 20 keystrokes",
                badge: "\u{1F48E}",
            },
            AchievementId::EfficiencyExpert => Achievement {
                id,
                name: "Efficiency Expert",
                description: "Maintain an average under 40 keystrokes across all completions",
                badge: "\u{1F3AF}",
            },
            AchievementId::ConsistentLearner => Achievement {
                id,
                name: "Consistent Learner",
                description: "Practice 7 days in a row",
                badge: "\u{1F525}",
            },
            AchievementId::DedicatedPractitioner => Achievement {
                id,
                name: "Dedicated Practitioner",
                description: "Practice 30 days in a row",
                badge: "\u{1F525}\u{1F525}",
            },
            AchievementId::ChallengeMaster => Achievement {
                id,
                name: "Challenge Master",
                description: "Achieve gold tier on 25 challenges",
                badge: "\u{1F3C6}",
            },
            AchievementId::GoldRush => Achievement {
                id,
                name: "Gold Rush",
                description: "Achieve gold tier on 10 challenges in a row",
                badge: "\u{1F947}",
            },
            AchievementId::Completionist => Achievement {
                id,
                name: "Completionist",
                description: "Complete all available challenges",
                badge: "\u{2728}",
            },
            AchievementId::HalfwayThere => Achievement {
                id,
                name: "Halfway There",
                description: "Complete 50% of available challenges",
                badge: "\u{1F396}\u{FE0F}",
            },
            AchievementId::CenturyClub => Achievement {
                id,
                name: "Century Club",
                description: "Complete 100 challenges total",
                badge: "\u{1F4AF}",
            },
        }
    }

    /// The identifier of the achievement.
    pub fn id(&self) -> (id: AchievementId)
        ensures
            id == self.spec_id(),
    {
        self.id
    }

    /// The display name.
    pub fn name(&self) -> (name: &str)
        ensures
            self.wf() ==> name@ == name_of(self.spec_id()),
    {
        self.name
    }

    /// What the achievement asks for, in words.
    pub fn description(&self) -> (description: &str)
        ensures
            self.wf() ==> description@ == description_of(self.spec_id()),
    {
        self.description
    }

    /// The badge.
    pub fn badge(&self) -> (badge: &str)
        ensures
            self.wf() ==> badge@ == badge_of(self.spec_id()),
    {
        self.badge
    }
}

/// An achievement that was unlocked, with the time at which it was.
#[derive(Debug, Clone, Copy, PartialEq, Eq, Structural)]
pub struct UnlockedAchievement {
    pub id: AchievementId,
    pub unlocked_at: Timestamp,
}

impl UnlockedAchievement {
    /// The record that `id` was unlocked at `unlocked_at`.
    pub fn new(id: AchievementId, unlocked_at: Timestamp) -> (unlocked: Self)
        ensures
            unlocked == (UnlockedAchievement { id, unlocked_at }),
    {
        UnlockedAchievement { id, unlocked_at }
    }

    /// The identifier of the achievement.
    pub fn id(&self) -> (id: AchievementId)
        ensures
            id == self.id,
    {
        self.id
    }

    /// The time at which the achievement was unlocked.
    pub fn unlocked_at(&self) -> (at: Timestamp)
        ensures
            at == self.unlocked_at,
    {
        self.unlocked_at
    }

    /// The catalog entry of the achievement.
    pub fn achievement(&self) -> (achievement: Achievement)
        ensures
            achievement.spec_id() == self.id,
            achievement.wf(),
    {
        Achievement::get(self.id)
    }
}

/// Whether a time counts as fast: its whole seconds lie under the threshold.
pub fn check_fast_completion(time: Duration, threshold_secs: u64) -> (fast: bool)
    ensures
        fast == (time.secs < threshold_secs),
{
    time.as_secs() < threshold_secs
}

/// Whether a keystroke count counts as efficient: it is known and lies under
/// the threshold.
pub fn check_efficient_completion(keystrokes: Option<u32>, threshold: u32) -> (efficient: bool)
    ensures
        efficient == (keystrokes is Some && keystrokes->0 < threshold),
{
    match keystrokes {
        Some(ks) => ks < threshold,
        None => false,
    }
}

} // verus!
