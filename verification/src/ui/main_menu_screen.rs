//! The main menu: five entries, a selection that moves up and down, and the
//! action that a key press chooses.

use vstd::prelude::*;
use vstd::string::*;
use crate::text::{decimal, push_char, push_decimal};
use crate::time::Duration;
use crate::ui::key::Key;

verus! {

/// What the user chose in the main menu.
#[derive(Debug, Clone, Copy, PartialEq, Eq, Structural)]
pub enum MenuAction {
    StartTraining,
    ViewProgress,
    BrowseChallenges,
    Settings,
    Quit,
}

/// The entries of the menu, from top to bottom.
pub open spec fn menu_entries() -> Seq<MenuAction> {
    seq![
        MenuAction::StartTraining,
        MenuAction::ViewProgress,
        MenuAction::BrowseChallenges,
        MenuAction::Settings,
        MenuAction::Quit,
    ]
}

/// The label of a menu entry.
pub open spec fn entry_label(action: MenuAction) -> Seq<char> {
    match action {
        MenuAction::StartTraining => "Start Training"@,
        MenuAction::ViewProgress => "View Progress"@,
        MenuAction::BrowseChallenges => "Browse Challenges"@,
        MenuAction::Settings => "Settings"@,
        MenuAction::Quit => "Quit"@,
    }
}

/// The selection after a key press: up and `k` move it up unless it is at
/// the top, down and `j` move it down unless it is at the bottom, and no
/// other key moves it.
pub open spec fn selection_after(selected: nat, key: Key) -> nat {
    match key {
        Key::Up | Key::Char('k') => if selected > 0 {
            (selected - 1) as nat
        } else {
            selected
        },
        Key::Down | Key::Char('j') => if selected + 1 < menu_entries().len() {
            selected + 1
        } else {
            selected
        },
        _ => selected,
    }
}

/// The action that a key press chooses: `q` and escape quit, enter chooses
/// the selected entry, and no other key chooses anything.
pub open spec fn action_of(selected: nat, key: Key) -> Option<MenuAction> {
    match key {
        Key::Char('q') | Key::Esc => Some(MenuAction::Quit),
        Key::Enter => Some(menu_entries()[selected as int]),
        _ => None,
    }
}

/// The practice time of the summary, in words: hours and minutes from one
/// hour on, else the minutes.
pub open spec fn summary_duration_text(secs: nat) -> Seq<char> {
    let hours = secs / 3600;
    let minutes = (secs % 3600) / 60;
    if hours > 0 {
        decimal(hours) + "h "@ + decimal(minutes) + "m"@
    } else if minutes > 0 {
        decimal(minutes) + "m"@
    } else {
        "0m"@
    }
}

/// The main menu.
#[derive(Debug)]
pub struct MainMenuScreen {
    selected_index: usize,
}

impl MainMenuScreen {
    /// The selected entry, counted from the top.
    pub closed spec fn selected(&self) -> nat {
        self.selected_index as nat
    }

    /// The selection lies within the menu.
    pub open spec fn wf(&self) -> bool {
        self.selected() < menu_entries().len()
    }

    /// The menu with its first entry selected.
    pub fn new() -> (screen: Self)
        ensures
            screen.selected() == 0,
            screen.wf(),
    {
        MainMenuScreen { selected_index: 0 }
    }

    /// The selected entry, counted from the top.
    pub fn selected_index(&self) -> (index: usize)
        ensures
            index == self.selected(),
    {
        self.selected_index
    }

    /// The entries with their labels, from top to bottom.
    pub fn options(&self) -> (options: Vec<(&'static str, MenuAction)>)
        ensures
            options.len() == menu_entries().len(),
            forall|i: int|
                0 <= i < options.len() ==> (#[trigger] options[i]).1 == menu_entries()[i]
                    && options[i].0@ == entry_label(menu_entries()[i]),
    {
        vec![
            ("Start Training", MenuAction::StartTraining),
            ("View Progress", MenuAction::ViewProgress),
            ("Browse Challenges", MenuAction::BrowseChallenges),
            ("Settings", MenuAction::Settings),
            ("Quit", MenuAction::Quit),
        ]
    }

    /// Takes a key press: moves the selection, and tells the action that
    /// was chosen, if any.
    pub fn handle_key(&mut self, key: Key) -> (action: Option<MenuAction>)
        requires
            old(self).wf(),
        ensures
            final(self).wf(),
            final(self).selected() == selection_after(old(self).selected(), key),
            action == action_of(old(self).selected(), key),
    {
        match key {
            Key::Char('q') | Key::Esc => Some(MenuAction::Quit),
            Key::Up | Key::Char('k') => {
                if self.selected_index > 0 {
                    self.selected_index = self.selected_index - 1;
                }
                None
            },
            Key::Down | Key::Char('j') => {
                if self.selected_index < 4 {
                    self.selected_index = self.selected_index + 1;
                }
                None
            },
            Key::Enter => {
                let action = match self.selected_index {
                    0 => MenuAction::StartTraining,
                    1 => MenuAction::ViewProgress,
                    2 => MenuAction::BrowseChallenges,
                    3 => MenuAction::Settings,
                    _ => MenuAction::Quit,
                };
                Some(action)
            },
            _ => None,
        }
    }

    /// The practice time of the summary, in words.
    pub fn format_duration(duration: Duration) -> (text: String)
        ensures
            text@ == summary_duration_text(duration.secs as nat),
    {
        let total_secs = duration.as_secs();
        let hours = total_secs / 3600;
        let minutes = (total_secs % 3600) / 60;
        let mut text = String::new();
        if hours > 0 {
            push_decimal(&mut text, hours as u128);
            text.append("h ");
            push_decimal(&mut text, minutes as u128);
            push_char(&mut text, 'm');
            proof {
                reveal_strlit("m");
                assert(text@ =~= summary_duration_text(duration.secs as nat));
            }
        } else if minutes > 0 {
            push_decimal(&mut text, minutes as u128);
            push_char(&mut text, 'm');
            proof {
                reveal_strlit("m");
                assert(text@ =~= summary_duration_text(duration.secs as nat));
            }
        } else {
            text.append("0m");
            assert(text@ =~= summary_duration_text(duration.secs as nat));
        }
        text
    }
}

impl Default for MainMenuScreen {
    fn default() -> (screen: Self)
        ensures
            screen.wf(),
    {
        MainMenuScreen::new()
    }
}

} // verus!
