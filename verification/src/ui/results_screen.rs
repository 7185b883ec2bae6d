//! The results screen: the outcome of an attempt in words.

use vstd::prelude::*;
use vstd::string::*;
use crate::text::{chars_of, decimal, push_char, push_decimal, string_of_range};
use crate::ui::key::Key;

verus! {

/// The title of the results screen.
pub open spec fn results_title(completed: bool) -> Seq<char> {
    if completed {
        "\u{2713} CHALLENGE COMPLETE!"@
    } else {
        "\u{2717} CHALLENGE INCOMPLETE"@
    }
}

/// A number below 100 in two digits.
pub open spec fn two_digits(n: nat) -> Seq<char> {
    if n < 10 {
        seq!['0'] + decimal(n)
    } else {
        decimal(n)
    }
}

/// The elapsed time of an attempt in words: minutes, a colon, and the
/// seconds in two digits.
pub open spec fn elapsed_text(secs: nat) -> Seq<char> {
    "Time: "@ + decimal(secs / 60) + seq![':'] + two_digits(secs % 60) + seq!['s']
}

/// Whether `text` starts with `prefix`.
pub open spec fn starts_with(text: Seq<char>, prefix: Seq<char>) -> bool {
    prefix.len() <= text.len() && text.take(prefix.len() as int) == prefix
}

/// A path for display: with `~` in place of the home directory where the
/// path starts with it.
pub open spec fn abbreviated_path(path: Seq<char>, home: Option<Seq<char>>) -> Seq<char> {
    if home is Some && starts_with(path, home->0) {
        seq!['~'] + path.skip(home->0.len() as int)
    } else {
        path
    }
}

/// The keys that leave the results screen: every character key, enter and
/// escape.
pub open spec fn leaves_results_screen(key: Key) -> bool {
    key is Char || key == Key::Enter || key == Key::Esc
}

/// The results screen. It holds no state.
#[derive(Debug)]
pub struct ResultsScreen;

impl ResultsScreen {
    /// The screen.
    pub fn new() -> (screen: Self) {
        ResultsScreen
    }

    /// Whether a key leaves the screen.
    pub fn is_dismiss_key(key: Key) -> (leaves: bool)
        ensures
            leaves == leaves_results_screen(key),
    {
        match key {
            Key::Char(_) | Key::Enter | Key::Esc => true,
            _ => false,
        }
    }

    /// The title of the screen.
    pub fn title(completed: bool) -> (title: &'static str)
        ensures
            title@ == results_title(completed),
    {
        if completed {
            "\u{2713} CHALLENGE COMPLETE!"
        } else {
            "\u{2717} CHALLENGE INCOMPLETE"
        }
    }

    /// The elapsed time of an attempt in words.
    pub fn format_elapsed(elapsed_secs: u64) -> (text: String)
        ensures
            text@ == elapsed_text(elapsed_secs as nat),
    {
        let mut text = "Time: ".to_string();
        push_decimal(&mut text, (elapsed_secs / 60) as u128);
        push_char(&mut text, ':');
        let seconds = elapsed_secs % 60;
        if seconds < 10 {
            push_char(&mut text, '0');
        }
        push_decimal(&mut text, seconds as u128);
        push_char(&mut text, 's');
        assert(text@ =~= elapsed_text(elapsed_secs as nat));
        text
    }

    /// A path for display, with `~` in place of the home directory.
    pub fn abbreviate_path(path: &str, home: Option<&str>) -> (text: String)
        ensures
            text@ == abbreviated_path(
                path@,
                match home {
                    Some(home) => Some(home@),
                    None => None,
                },
            ),
    {
        let home_text = match home {
            Some(home_text) => home_text,
            None => {
                return path.to_string();
            },
        };
        let path_chars = chars_of(path);
        let home_chars = chars_of(home_text);
        if home_chars.len() > path_chars.len() {
            return path.to_string();
        }
        let mut i: usize = 0;
        while i < home_chars.len()
            invariant
                0 <= i <= home_chars.len() <= path_chars.len(),
                path_chars@ == path@,
                home == Some(home_text),
                home_chars@ == home_text@,
                forall|j: int| 0 <= j < i ==> path_chars[j] == home_chars[j],
            decreases home_chars.len() - i,
        {
            if path_chars[i] != home_chars[i] {
                assert(!starts_with(path@, home_text@)) by {
                    let start = path@.take(home_text@.len() as int);
                    assert(start[i as int] == path@[i as int]);
                    assert(start[i as int] != home_text@[i as int]);
                }
                return path.to_string();
            }
            i = i + 1;
        }
        assert(path@.take(home_text@.len() as int) =~= home_text@);
        let mut text = String::new();
        push_char(&mut text, '~');
        let rest = string_of_range(&path_chars, home_chars.len(), path_chars.len());
        text.append(rest.as_str());
        assert(text@ =~= seq!['~'] + path@.skip(home_text@.len() as int));
        text
    }
}

impl Default for ResultsScreen {
    fn default() -> (screen: Self) {
        ResultsScreen::new()
    }
}

} // verus!
