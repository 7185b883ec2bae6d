//! Challenge definitions as they are written down, and the challenges that
//! they stand for.

use vstd::prelude::*;
use vstd::string::*;
use crate::domain::challenge::{Challenge, ChallengeView};
use crate::domain::challenge_stats::text_of;
use crate::error::LedgerError;
use crate::text::texts_of;

verus! {

/// A source of challenges.
pub trait ChallengeLoader {
    /// All challenges that the source offers.
    fn load_all(&self) -> Result<Vec<Challenge>, LedgerError>;
}

/// The definition of a challenge as it is written down.
#[derive(Debug)]
pub struct ChallengeDefinition {
    pub id: String,
    pub title: String,
    pub description: String,
    pub difficulty: Option<String>,
    pub tags: Vec<String>,
    pub generic_hint: Option<String>,
    pub helix_hint: Option<String>,
    pub starting: String,
    pub target: String,
}

/// The hint where a definition gives none.
pub open spec fn no_hint_text() -> Seq<char> {
    "No hint available"@
}

impl ChallengeDefinition {
    /// The hint of the challenge: the one for Helix where there is one, else
    /// the generic one, else a fixed text.
    pub open spec fn hint(&self) -> Seq<char> {
        if self.helix_hint is Some {
            self.helix_hint->0@
        } else if self.generic_hint is Some {
            self.generic_hint->0@
        } else {
            no_hint_text()
        }
    }

    /// The challenge that the definition stands for.
    pub fn into_domain(self) -> (challenge: Challenge)
        ensures
            challenge@ == (ChallengeView {
                id: self.id@,
                title: self.title@,
                description: self.description@,
                starting_content: self.starting@,
                target_content: self.target@,
                hint: self.hint(),
                difficulty: text_of(self.difficulty),
                tags: texts_of(self.tags@),
                progressive_hints: Seq::empty(),
                optimal_solution: None,
                optimal_keystrokes: None,
            }),
    {
        let hint = match self.helix_hint {
            Some(hint) => hint,
            None => match self.generic_hint {
                Some(hint) => hint,
                None => "No hint available".to_string(),
            },
        };
        let mut challenge = Challenge::new(
            self.id.as_str(),
            self.title.as_str(),
            self.description.as_str(),
            self.starting.as_str(),
            self.target.as_str(),
            hint.as_str(),
        );
        if let Some(difficulty) = self.difficulty {
            challenge = challenge.with_difficulty(difficulty.as_str());
        }
        if self.tags.len() > 0 {
            challenge = challenge.with_tags(self.tags);
        } else {
            assert(texts_of(self.tags@) =~= Seq::empty());
        }
        challenge
    }
}

/// The loader of challenge definitions from the files of a directory.
#[derive(Debug)]
pub struct TomlChallengeLoader {
    challenges_dir: String,
}

impl TomlChallengeLoader {
    /// A loader for the directory `challenges_dir`.
    pub fn new(challenges_dir: &str) -> (loader: Self)
        ensures
            loader.directory() == challenges_dir@,
    {
        TomlChallengeLoader { challenges_dir: challenges_dir.to_string() }
    }

    /// The directory of the loader.
    pub closed spec fn directory(&self) -> Seq<char> {
        self.challenges_dir@
    }

    /// The directory of the loader.
    pub fn challenges_dir(&self) -> (directory: &str)
        ensures
            directory@ == self.directory(),
    {
        self.challenges_dir.as_str()
    }
}

} // verus!
