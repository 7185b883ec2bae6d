//! An editing challenge: a text to start from, a text to arrive at, and what
//! is told about the way.

use vstd::prelude::*;
use vstd::string::*;
use crate::domain::challenge_stats::text_of;
use crate::text::texts_of;

verus! {

/// An editing challenge.
#[derive(Debug)]
pub struct Challenge {
    id: String,
    title: String,
    description: String,
    starting_content: String,
    target_content: String,
    hint: String,
    difficulty: Option<String>,
    tags: Vec<String>,
    progressive_hints: Vec<String>,
    optimal_solution: Option<String>,
    optimal_keystrokes: Option<u32>,
}

/// The mathematical content of a [`Challenge`].
pub struct ChallengeView {
    pub id: Seq<char>,
    pub title: Seq<char>,
    pub description: Seq<char>,
    pub starting_content: Seq<char>,
    pub target_content: Seq<char>,
    pub hint: Seq<char>,
    pub difficulty: Option<Seq<char>>,
    pub tags: Seq<Seq<char>>,
    pub progressive_hints: Seq<Seq<char>>,
    pub optimal_solution: Option<Seq<char>>,
    pub optimal_keystrokes: Option<u32>,
}

impl View for Challenge {
    type V = ChallengeView;

    closed spec fn view(&self) -> ChallengeView {
        ChallengeView {
            id: self.id@,
            title: self.title@,
            description: self.description@,
            starting_content: self.starting_content@,
            target_content: self.target_content@,
            hint: self.hint@,
            difficulty: text_of(self.difficulty),
            tags: texts_of(self.tags@),
            progressive_hints: texts_of(self.progressive_hints@),
            optimal_solution: text_of(self.optimal_solution),
            optimal_keystrokes: self.optimal_keystrokes,
        }
    }
}

/// A copy of a list of strings.
pub fn copy_texts(texts: &Vec<String>) -> (copy: Vec<String>)
    ensures
        texts_of(copy@) == texts_of(texts@),
{
    let mut copy: Vec<String> = Vec::new();
    let mut i: usize = 0;
    while i < texts.len()
        invariant
            0 <= i <= texts.len(),
            copy.len() == i,
            forall|j: int| 0 <= j < i ==> (#[trigger] copy[j])@ == texts[j]@,
        decreases texts.len() - i,
    {
        copy.push(texts[i].clone());
        i = i + 1;
    }
    assert(texts_of(copy@) =~= texts_of(texts@));
    copy
}

/// A copy of an optional string.
fn copy_option(text: &Option<String>) -> (copy: Option<String>)
    ensures
        text_of(copy) == text_of(*text),
{
    match text {
        Some(t) => Some(t.clone()),
        None => None,
    }
}

/// The text of an optional string, borrowed.
fn borrow_option(text: &Option<String>) -> (borrowed: Option<&str>)
    ensures
        borrowed is Some <==> *text is Some,
        borrowed is Some ==> borrowed->0@ == text->0@,
{
    match text {
        Some(t) => Some(t.as_str()),
        None => None,
    }
}

impl Clone for Challenge {
    fn clone(&self) -> (copy: Self)
        ensures
            copy@ == self@,
    {
        Challenge {
            id: self.id.clone(),
            title: self.title.clone(),
            description: self.description.clone(),
            starting_content: self.starting_content.clone(),
            target_content: self.target_content.clone(),
            hint: self.hint.clone(),
            difficulty: copy_option(&self.difficulty),
            tags: copy_texts(&self.tags),
            progressive_hints: copy_texts(&self.progressive_hints),
            optimal_solution: copy_option(&self.optimal_solution),
            optimal_keystrokes: self.optimal_keystrokes,
        }
    }
}

impl Challenge {
    /// A challenge with the given texts, and with no difficulty, tags,
    /// progressive hints or optimal solution yet.
    pub fn new(
        id: &str,
        title: &str,
        description: &str,
        starting_content: &str,
        target_content: &str,
        hint: &str,
    ) -> (challenge: Self)
        ensures
            challenge@ == (ChallengeView {
                id: id@,
                title: title@,
                description: description@,
                starting_content: starting_content@,
                target_content: target_content@,
                hint: hint@,
                difficulty: None,
                tags: Seq::empty(),
                progressive_hints: Seq::empty(),
                optimal_solution: None,
                optimal_keystrokes: None,
            }),
    {
        let challenge = Challenge {
            id: id.to_string(),
            title: title.to_string(),
            description: description.to_string(),
            starting_content: starting_content.to_string(),
            target_content: target_content.to_string(),
            hint: hint.to_string(),
            difficulty: None,
            tags: Vec::new(),
            progressive_hints: Vec::new(),
            optimal_solution: None,
            optimal_keystrokes: None,
        };
        assert(challenge@.tags =~= Seq::empty());
        assert(challenge@.progressive_hints =~= Seq::empty());
        challenge
    }

    /// The challenge with its difficulty set.
    pub fn with_difficulty(self, difficulty: &str) -> (challenge: Self)
        ensures
            challenge@ == (ChallengeView { difficulty: Some(difficulty@), ..self@ }),
    {
        let mut challenge = self;
        challenge.difficulty = Some(difficulty.to_string());
        challenge
    }

    /// The challenge with its tags replaced.
    pub fn with_tags(self, tags: Vec<String>) -> (challenge: Self)
        ensures
            challenge@ == (ChallengeView { tags: texts_of(tags@), ..self@ }),
    {
        let mut challenge = self;
        challenge.tags = tags;
        challenge
    }

    /// The challenge with its progressive hints replaced.
    pub fn with_progressive_hints(self, hints: Vec<String>) -> (challenge: Self)
        ensures
            challenge@ == (ChallengeView { progressive_hints: texts_of(hints@), ..self@ }),
    {
        let mut challenge = self;
        challenge.progressive_hints = hints;
        challenge
    }

    /// The challenge with its optimal solution and the keystrokes of it set.
    pub fn with_optimal_solution(self, solution: &str, keystrokes: u32) -> (challenge: Self)
        ensures
            challenge@ == (ChallengeView {
                optimal_solution: Some(solution@),
                optimal_keystrokes: Some(keystrokes),
                ..self@
            }),
    {
        let mut challenge = self;
        challenge.optimal_solution = Some(solution.to_string());
        challenge.optimal_keystrokes = Some(keystrokes);
        challenge
    }

    /// The identifier.
    pub fn id(&self) -> (id: &str)
        ensures
            id@ == self@.id,
    {
        self.id.as_str()
    }

    /// The title.
    pub fn title(&self) -> (title: &str)
        ensures
            title@ == self@.title,
    {
        self.title.as_str()
    }

    /// The description.
    pub fn description(&self) -> (description: &str)
        ensures
            description@ == self@.description,
    {
        self.description.as_str()
    }

    /// The text to start from.
    pub fn starting_content(&self) -> (content: &str)
        ensures
            content@ == self@.starting_content,
    {
        self.starting_content.as_str()
    }

    /// The text to arrive at.
    pub fn target_content(&self) -> (content: &str)
        ensures
            content@ == self@.target_content,
    {
        self.target_content.as_str()
    }

    /// The hint.
    pub fn hint(&self) -> (hint: &str)
        ensures
            hint@ == self@.hint,
    {
        self.hint.as_str()
    }

    /// The difficulty, where one is set.
    pub fn difficulty(&self) -> (difficulty: Option<&str>)
        ensures
            difficulty is Some <==> self@.difficulty is Some,
            difficulty is Some ==> difficulty->0@ == self@.difficulty->0,
    {
        borrow_option(&self.difficulty)
    }

    /// The tags.
    pub fn tags(&self) -> (tags: &[String])
        ensures
            texts_of(tags@) == self@.tags,
    {
        self.tags.as_slice()
    }

    /// The progressive hints.
    pub fn progressive_hints(&self) -> (hints: &[String])
        ensures
            texts_of(hints@) == self@.progressive_hints,
    {
        self.progressive_hints.as_slice()
    }

    /// Whether there are progressive hints.
    pub fn has_progressive_hints(&self) -> (has: bool)
        ensures
            has == (self@.progressive_hints.len() > 0),
    {
        self.progressive_hints.len() > 0
    }

    /// The optimal solution, where one is set.
    pub fn optimal_solution(&self) -> (solution: Option<&str>)
        ensures
            solution is Some <==> self@.optimal_solution is Some,
            solution is Some ==> solution->0@ == self@.optimal_solution->0,
    {
        borrow_option(&self.optimal_solution)
    }

    /// The keystrokes of the optimal solution, where one is set.
    pub fn optimal_keystrokes(&self) -> (keystrokes: Option<u32>)
        ensures
            keystrokes == self@.optimal_keystrokes,
    {
        self.optimal_keystrokes
    }
}

} // verus!
