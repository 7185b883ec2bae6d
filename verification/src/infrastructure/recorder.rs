//! Where recordings go: safe identifiers and the names of recording files.

use vstd::prelude::*;
use vstd::string::*;
use crate::text::{char_is_alphanumeric, chars_of, decimal, is_alphanumeric_char, push_char, push_decimal};

verus! {

/// Why a challenge identifier cannot name a file.
#[derive(Debug, Clone, Copy, PartialEq, Eq, Structural)]
pub enum ValidationError {
    /// The identifier is empty.
    Empty,
    /// The identifier holds a character that is no letter, digit, dash or
    /// underscore.
    InvalidCharacter,
    /// The identifier holds a path separator or `..`.
    PathTraversal,
}

/// Whether a character may stand in a challenge identifier: a letter, a
/// digit, a dash or an underscore.
pub open spec fn is_identifier_char(c: char) -> bool {
    is_alphanumeric_char(c) || c == '-' || c == '_'
}

/// Whether a text holds a path separator or two dots in a row.
pub open spec fn has_path_syntax(id: Seq<char>) -> bool {
    ||| exists|i: int| 0 <= i < id.len() && (#[trigger] id[i] == '/' || id[i] == '\\')
    ||| exists|i: int| 0 <= i < id.len() - 1 && #[trigger] id[i] == '.' && id[i + 1] == '.'
}

/// What is wrong with a challenge identifier, if anything: the first of
/// being empty, holding a character that is not allowed, and holding a path
/// separator or `..`.
pub open spec fn identifier_fault(id: Seq<char>) -> Option<ValidationError> {
    if id.len() == 0 {
        Some(ValidationError::Empty)
    } else if exists|i: int| 0 <= i < id.len() && !is_identifier_char(#[trigger] id[i]) {
        Some(ValidationError::InvalidCharacter)
    } else if has_path_syntax(id) {
        Some(ValidationError::PathTraversal)
    } else {
        None
    }
}

/// Checks that a challenge identifier can safely name a file: it is not
/// empty, holds only letters, digits, dashes and underscores, and no path
/// separator or `..`.
pub fn validate_challenge_id(challenge_id: &str) -> (checked: Result<(), ValidationError>)
    ensures
        match identifier_fault(challenge_id@) {
            Some(fault) => checked == Err::<(), ValidationError>(fault),
            None => checked is Ok,
        },
{
    let chars = chars_of(challenge_id);
    if chars.len() == 0 {
        return Err(ValidationError::Empty);
    }
    let mut i: usize = 0;
    while i < chars.len()
        invariant
            0 <= i <= chars.len(),
            chars.len() > 0,
            chars@ == challenge_id@,
            forall|j: int| 0 <= j < i ==> is_identifier_char(#[trigger] chars[j]),
        decreases chars.len() - i,
    {
        let c = chars[i];
        if !(char_is_alphanumeric(c) || c == '-' || c == '_') {
            assert(!is_identifier_char(challenge_id@[i as int]));
            return Err(ValidationError::InvalidCharacter);
        }
        i = i + 1;
    }
    let mut k: usize = 0;
    while k < chars.len()
        invariant
            0 <= k <= chars.len(),
            chars.len() > 0,
            chars@ == challenge_id@,
            forall|j: int| 0 <= j < chars.len() ==> is_identifier_char(#[trigger] chars[j]),
            forall|j: int| 0 <= j < k ==> !(#[trigger] chars[j] == '/' || chars[j] == '\\'),
            forall|j: int| 0 <= j < k && j < chars.len() - 1 ==> !(#[trigger] chars[j] == '.' && chars[j + 1] == '.'),
        decreases chars.len() - k,
    {
        let c = chars[k];
        if c == '/' || c == '\\' {
            assert(challenge_id@[k as int] == '/' || challenge_id@[k as int] == '\\');
            assert(has_path_syntax(challenge_id@));
            return Err(ValidationError::PathTraversal);
        }
        if c == '.' && k + 1 < chars.len() && chars[k + 1] == '.' {
            assert(challenge_id@[k as int] == '.' && challenge_id@[k + 1] == '.');
            assert(has_path_syntax(challenge_id@));
            return Err(ValidationError::PathTraversal);
        }
        k = k + 1;
    }
    Ok(())
}

/// The name of the recording file of a challenge: `challenge-`, the
/// identifier, a dash, the time in seconds, and `.cast`.
pub open spec fn recording_file_name(challenge_id: Seq<char>, timestamp_secs: u64) -> Seq<char> {
    "challenge-"@ + challenge_id + seq!['-'] + decimal(timestamp_secs as nat) + ".cast"@
}

/// The path of a file in a directory: the directory, a slash unless the
/// directory ends in one, and the name of the file.
pub open spec fn path_in(directory: Seq<char>, name: Seq<char>) -> Seq<char> {
    if directory.len() > 0 && directory.last() == '/' {
        directory + name
    } else {
        directory + seq!['/'] + name
    }
}

/// The recorder that runs the editor under `asciinema`.
#[derive(Debug)]
pub struct AsciinemaRecorder {
    editor_command: String,
}

impl AsciinemaRecorder {
    /// A recorder for the editor that `editor_command` starts.
    pub fn new(editor_command: &str) -> (recorder: Self)
        ensures
            recorder.command() == editor_command@,
    {
        AsciinemaRecorder { editor_command: editor_command.to_string() }
    }

    /// The command that starts the editor.
    pub closed spec fn command(&self) -> Seq<char> {
        self.editor_command@
    }

    /// The command that starts the editor.
    pub fn editor_command(&self) -> (command: &str)
        ensures
            command@ == self.command(),
    {
        self.editor_command.as_str()
    }

    /// The path of the recording of a challenge that starts at the time
    /// `timestamp_secs`, in the directory `recordings_dir`. An identifier
    /// that cannot safely name a file is refused, before anything is made of
    /// it.
    pub fn generate_recording_path(
        recordings_dir: &str,
        challenge_id: &str,
        timestamp_secs: u64,
    ) -> (path: Result<String, ValidationError>)
        ensures
            match identifier_fault(challenge_id@) {
                Some(fault) => path == Err::<String, ValidationError>(fault),
                None => path is Ok && path->Ok_0@ == path_in(
                    recordings_dir@,
                    recording_file_name(challenge_id@, timestamp_secs),
                ),
            },
    {
        match validate_challenge_id(challenge_id) {
            Err(fault) => {
                return Err(fault);
            },
            Ok(_) => {},
        }
        let directory = chars_of(recordings_dir);
        let mut path = recordings_dir.to_string();
        if !(directory.len() > 0 && directory[directory.len() - 1] == '/') {
            push_char(&mut path, '/');
        }
        path.append("challenge-");
        path.append(challenge_id);
        push_char(&mut path, '-');
        push_decimal(&mut path, timestamp_secs as u128);
        path.append(".cast");
        assert(path@ =~= path_in(
            recordings_dir@,
            recording_file_name(challenge_id@, timestamp_secs),
        ));
        Ok(path)
    }
}

} // verus!
