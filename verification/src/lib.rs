//! Editor Dojo: the integrity-checked progress ledger behind a terminal
//! trainer for text-editor skills.
//!
//! The crate decodes recorded terminal sessions into key sequences, signs and
//! verifies stored results, and maintains per-challenge statistics, streaks,
//! mastery tiers and achievements.

pub mod sorting;
pub mod text;
pub mod time;
pub mod ui;
pub mod application;
pub mod domain;
pub mod error;
pub mod infrastructure;
