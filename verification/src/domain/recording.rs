//! The recording of an attempt: where the file lies, and the keys that were
//! decoded from it.

use vstd::prelude::*;
use vstd::string::*;
use crate::domain::key_sequence::KeySequence;

verus! {

/// The recording of an attempt.
#[derive(Debug)]
pub struct Recording {
    file_path: String,
    key_sequence: KeySequence,
}

impl Recording {
    /// The path of the recording file.
    pub closed spec fn path(&self) -> Seq<char> {
        self.file_path@
    }

    /// The keys of the recording.
    pub closed spec fn keys(&self) -> Seq<Seq<char>> {
        self.key_sequence@
    }

    /// The recording at `file_path` with the keys `key_sequence`.
    pub fn new(file_path: String, key_sequence: KeySequence) -> (recording: Self)
        ensures
            recording.path() == file_path@,
            recording.keys() == key_sequence@,
    {
        Recording { file_path, key_sequence }
    }

    /// The path of the recording file.
    pub fn file_path(&self) -> (path: &str)
        ensures
            path@ == self.path(),
    {
        self.file_path.as_str()
    }

    /// The keys of the recording.
    pub fn key_sequence(&self) -> (keys: &KeySequence)
        ensures
            keys@ == self.keys(),
    {
        &self.key_sequence
    }

    /// The number of keys of the recording.
    pub fn keystroke_count(&self) -> (count: usize)
        ensures
            count == self.keys().len(),
    {
        self.key_sequence.count()
    }

    /// The path of the recording file, for display.
    pub fn file_path_display(&self) -> (path: String)
        ensures
            path@ == self.path(),
    {
        self.file_path.clone()
    }
}

impl Clone for Recording {
    fn clone(&self) -> (copy: Self)
        ensures
            copy.path() == self.path(),
            copy.keys() == self.keys(),
    {
        Recording { file_path: self.file_path.clone(), key_sequence: self.key_sequence.clone() }
    }
}

} // verus!
