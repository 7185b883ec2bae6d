//! The challenge brief: the user sets the mode, looks at the hints, and
//! starts or leaves.

use vstd::prelude::*;
use crate::ui::key::Key;

verus! {

/// How a challenge is run.
#[derive(Debug, Clone, Copy, PartialEq, Eq, Structural)]
pub struct ChallengeMode {
    /// Whether the run is for practice and does not count.
    pub practice_mode: bool,
}

/// What the challenge brief does after a key press.
#[derive(Debug, Clone, Copy, PartialEq, Eq, Structural)]
pub enum BriefOutcome {
    /// The brief stays open.
    Stay,
    /// The user starts the challenge in this mode.
    Start(ChallengeMode),
    /// The user leaves.
    Leave,
}

/// The challenge brief.
#[derive(Debug, Clone, Copy, PartialEq, Eq, Structural)]
pub struct ChallengeScreen {
    pub practice_mode: bool,
    pub show_hints: bool,
}

/// The brief after a key press: `p` switches the practice mode, `h`
/// switches the hints where the challenge has any, and no other key changes
/// anything.
pub open spec fn brief_after(screen: ChallengeScreen, key: Key, has_hints: bool) -> ChallengeScreen {
    match key {
        Key::Char('p') => ChallengeScreen { practice_mode: !screen.practice_mode, ..screen },
        Key::Char('h') => if has_hints {
            ChallengeScreen { show_hints: !screen.show_hints, ..screen }
        } else {
            screen
        },
        _ => screen,
    }
}

/// What the brief does after a key press: enter starts the challenge in the
/// mode that is set, escape and `q` leave, and every other key keeps the
/// brief open.
pub open spec fn outcome_of(screen: ChallengeScreen, key: Key) -> BriefOutcome {
    match key {
        Key::Enter => BriefOutcome::Start(ChallengeMode { practice_mode: screen.practice_mode }),
        Key::Esc | Key::Char('q') => BriefOutcome::Leave,
        _ => BriefOutcome::Stay,
    }
}

impl ChallengeScreen {
    /// The brief as it opens: not for practice, hints hidden.
    pub fn new() -> (screen: Self)
        ensures
            screen == (ChallengeScreen { practice_mode: false, show_hints: false }),
    {
        ChallengeScreen { practice_mode: false, show_hints: false }
    }

    /// Takes a key press, for a challenge that has progressive hints or not.
    pub fn handle_key(&mut self, key: Key, has_hints: bool) -> (outcome: BriefOutcome)
        ensures
            *final(self) == brief_after(*old(self), key, has_hints),
            outcome == outcome_of(*old(self), key),
    {
        match key {
            Key::Enter => BriefOutcome::Start(ChallengeMode { practice_mode: self.practice_mode }),
            Key::Esc | Key::Char('q') => BriefOutcome::Leave,
            Key::Char('p') => {
                self.practice_mode = !self.practice_mode;
                BriefOutcome::Stay
            },
            Key::Char('h') => {
                if has_hints {
                    self.show_hints = !self.show_hints;
                }
                BriefOutcome::Stay
            },
            _ => BriefOutcome::Stay,
        }
    }

    /// Whether the hints are shown: they are switched on, and the challenge
    /// has some.
    pub fn shows_hints(&self, has_hints: bool) -> (shown: bool)
        ensures
            shown == (self.show_hints && has_hints),
    {
        self.show_hints && has_hints
    }

    /// The words that tell the mode.
    pub fn mode_indicator(&self) -> (text: &'static str)
        ensures
            text@ == if self.practice_mode {
                " [PRACTICE MODE]"@
            } else {
                " [CHALLENGE MODE]"@
            },
    {
        if self.practice_mode {
            " [PRACTICE MODE]"
        } else {
            " [CHALLENGE MODE]"
        }
    }
}

impl Default for ChallengeScreen {
    fn default() -> (screen: Self)
        ensures
            screen == (ChallengeScreen { practice_mode: false, show_hints: false }),
    {
        ChallengeScreen::new()
    }
}

} // verus!
