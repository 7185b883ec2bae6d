//! Whether a solution matches its target, white space aside.

use vstd::prelude::*;
use vstd::string::*;
use crate::text::{join_lines, join_with_newlines, lines_of, same_text, split_lines, texts_of, trim, trimmed};

verus! {

/// The trimmed lines of `lines` that are not empty, in their order.
pub open spec fn kept_lines(lines: Seq<Seq<char>>) -> Seq<Seq<char>>
    decreases lines.len(),
{
    if lines.len() == 0 {
        Seq::empty()
    } else if trimmed(lines.last()).len() == 0 {
        kept_lines(lines.drop_last())
    } else {
        kept_lines(lines.drop_last()).push(trimmed(lines.last()))
    }
}

/// A content in normal form: every line trimmed, empty lines left out, and
/// the rest joined with line feeds.
pub open spec fn normalized(content: Seq<char>) -> Seq<char> {
    join_with_newlines(kept_lines(lines_of(content)))
}

/// The checker of solutions. It holds no state.
pub struct SolutionValidator;

impl SolutionValidator {
    /// A checker.
    pub fn new() -> (validator: Self) {
        SolutionValidator
    }

    /// Whether `actual` and `expected` are the same in normal form: with
    /// every line trimmed and empty lines left out.
    pub fn is_valid(&self, actual: &str, expected: &str) -> (valid: bool)
        ensures
            valid == (normalized(actual@) == normalized(expected@)),
    {
        let normalized_actual = self.normalize(actual);
        let normalized_expected = self.normalize(expected);
        same_text(normalized_actual.as_str(), normalized_expected.as_str())
    }

    /// The content in normal form.
    pub fn normalize(&self, content: &str) -> (text: String)
        ensures
            text@ == normalized(content@),
    {
        let lines = split_lines(content);
        let ghost texts = texts_of(lines@);
        let mut kept: Vec<String> = Vec::new();
        let mut i: usize = 0;
        proof {
            assert(texts_of(kept@) =~= Seq::empty());
            assert(texts.take(0) =~= Seq::empty());
        }
        while i < lines.len()
            invariant
                0 <= i <= lines.len(),
                texts == texts_of(lines@),
                texts_of(kept@) == kept_lines(texts.take(i as int)),
            decreases lines.len() - i,
        {
            let line = trim(lines[i].as_str());
            proof {
                let next = texts.take(i + 1);
                assert(next.drop_last() =~= texts.take(i as int));
                assert(next.last() == lines[i as int]@);
                assert(texts_of(kept@.push(line)) =~= texts_of(kept@).push(line@));
            }
            if !line.as_str().is_empty() {
                kept.push(line);
            }
            i = i + 1;
        }
        assert(texts.take(i as int) =~= texts);
        join_lines(&kept)
    }
}

impl Default for SolutionValidator {
    fn default() -> (validator: Self) {
        SolutionValidator::new()
    }
}

} // verus!
