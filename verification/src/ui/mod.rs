//! What the screens decide: which key does what, and how numbers are put
//! into words. Drawing is left to the program around the library.

pub mod challenge_list_screen;
pub mod challenge_screen;
pub mod key;
pub mod main_menu_screen;
pub mod progress_screen;
pub mod results_screen;

pub use challenge_list_screen::ChallengeListScreen;
pub use challenge_screen::{ChallengeMode, ChallengeScreen};
pub use key::Key;
pub use main_menu_screen::{MainMenuScreen, MenuAction};
pub use progress_screen::ProgressScreen;
pub use results_screen::ResultsScreen;
