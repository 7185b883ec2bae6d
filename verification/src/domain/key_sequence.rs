//! The keys pressed during an attempt, as readable tokens.

use vstd::prelude::*;
use vstd::string::*;
use vstd::utf8::is_ascii_chars_encode_utf8;
use crate::text::{decimal, join_prefix, join_with_spaces, lemma_encode_concat, push_decimal, texts_of, utf8_len};

verus! {

/// What an empty sequence is shown as.
pub open spec fn no_keystrokes_text() -> Seq<char> {
    "(no keystrokes recorded)"@
}

/// The bytes of a shortened display that are kept free for the note on the
/// keys left out.
pub const ELLIPSIS_RESERVE: usize = 20;

/// The bytes that the visible keys of a shortened display may take.
pub open spec fn visible_budget(max_length: nat) -> nat {
    if max_length >= ELLIPSIS_RESERVE {
        (max_length - ELLIPSIS_RESERVE) as nat
    } else {
        0
    }
}

/// Whether the tokens, joined with spaces, take at most `budget` bytes.
pub open spec fn fits(tokens: Seq<Seq<char>>, budget: nat) -> bool {
    utf8_len(join_with_spaces(tokens)) <= budget
}

/// The largest number of leading tokens that, joined with spaces, take at most
/// `budget` bytes.
pub open spec fn visible_count(tokens: Seq<Seq<char>>, budget: nat) -> nat
    decreases tokens.len(),
{
    if tokens.len() == 0 {
        0
    } else if fits(tokens, budget) {
        tokens.len()
    } else {
        visible_count(tokens.drop_last(), budget)
    }
}

/// The note that stands for `omitted` keys left out of a display.
pub open spec fn omitted_note(omitted: nat) -> Seq<char> {
    " ... ("@ + decimal(omitted) + " more keys)"@
}

/// A key sequence as shown in at most roughly `max_length` bytes: the tokens
/// joined with spaces where that fits; else as many leading tokens as fit in
/// `max_length` less the reserve, and a note on how many were left out. An
/// empty sequence is shown as a fixed text.
pub open spec fn display_text(tokens: Seq<Seq<char>>, max_length: nat) -> Seq<char> {
    if tokens.len() == 0 {
        no_keystrokes_text()
    } else if fits(tokens, max_length) {
        join_with_spaces(tokens)
    } else {
        let shown = visible_count(tokens, visible_budget(max_length));
        join_with_spaces(tokens.take(shown as int)) + omitted_note((tokens.len() - shown) as nat)
    }
}

/// A space takes one byte.
pub proof fn lemma_space_is_one_byte()
    ensures
        utf8_len(seq![' ']) == 1,
{
    is_ascii_chars_encode_utf8(seq![' ']);
}

/// The bytes of one more token joined on: the bytes so far, a space where
/// there was a token before, and the bytes of the token.
pub proof fn lemma_joined_length_step(tokens: Seq<Seq<char>>, k: int)
    requires
        0 <= k < tokens.len(),
    ensures
        utf8_len(join_with_spaces(tokens.take(k + 1))) == utf8_len(
            join_with_spaces(tokens.take(k)),
        ) + utf8_len(tokens[k]) + if k > 0 {
            1nat
        } else {
            0nat
        },
{
    let next = tokens.take(k + 1);
    assert(next.drop_last() =~= tokens.take(k));
    assert(next.last() == tokens[k]);
    if k == 0 {
        assert(join_with_spaces(tokens.take(0)) =~= Seq::empty());
        assert(join_with_spaces(next) == tokens[0]);
    } else {
        let before = join_with_spaces(tokens.take(k));
        lemma_space_is_one_byte();
        lemma_encode_concat(before, seq![' ']);
        lemma_encode_concat(before + seq![' '], tokens[k]);
    }
}

/// Where a prefix does not fit, no longer prefix does.
pub proof fn lemma_longer_prefix_does_not_fit(
    tokens: Seq<Seq<char>>,
    budget: nat,
    k: int,
    j: int,
)
    requires
        0 <= k <= j <= tokens.len(),
        !fits(tokens.take(k), budget),
    ensures
        !fits(tokens.take(j), budget),
    decreases j - k,
{
    if k < j {
        lemma_longer_prefix_does_not_fit(tokens, budget, k, j - 1);
        lemma_joined_length_step(tokens, j - 1);
    }
}

/// The visible count is the length of the one prefix that fits while the
/// prefix longer by one token does not.
pub proof fn lemma_visible_count_is(tokens: Seq<Seq<char>>, budget: nat, k: int)
    requires
        0 <= k <= tokens.len(),
        fits(tokens.take(k), budget),
        k < tokens.len() ==> !fits(tokens.take(k + 1), budget),
    ensures
        visible_count(tokens, budget) == k,
    decreases tokens.len() - k,
{
    if k == tokens.len() {
        assert(tokens.take(k) =~= tokens);
    } else {
        lemma_longer_prefix_does_not_fit(tokens, budget, k + 1, tokens.len() as int);
        assert(tokens.take(tokens.len() as int) =~= tokens);
        let rest = tokens.drop_last();
        assert(rest.take(k) =~= tokens.take(k));
        if k < rest.len() {
            assert(rest.take(k + 1) =~= tokens.take(k + 1));
        }
        lemma_visible_count_is(rest, budget, k);
    }
}

/// A sequence of keys, each a readable token such as `w`, `Ctrl-c` or `Enter`.
#[derive(Debug, PartialEq, Eq)]
pub struct KeySequence {
    keys: Vec<String>,
}

impl View for KeySequence {
    type V = Seq<Seq<char>>;

    closed spec fn view(&self) -> Seq<Seq<char>> {
        texts_of(self.keys@)
    }
}

impl Clone for KeySequence {
    fn clone(&self) -> (copy: Self)
        ensures
            copy@ == self@,
    {
        let mut keys: Vec<String> = Vec::new();
        let mut i: usize = 0;
        while i < self.keys.len()
            invariant
                0 <= i <= self.keys.len(),
                keys.len() == i,
                forall|j: int| 0 <= j < i ==> (#[trigger] keys[j])@ == self.keys[j]@,
            decreases self.keys.len() - i,
        {
            keys.push(self.keys[i].clone());
            i = i + 1;
        }
        let copy = KeySequence { keys };
        assert(copy@ =~= self@);
        copy
    }
}

impl KeySequence {
    /// The sequence of the given tokens.
    pub fn new(keys: Vec<String>) -> (sequence: Self)
        ensures
            sequence@ == texts_of(keys@),
    {
        KeySequence { keys }
    }

    /// The empty sequence.
    pub fn empty() -> (sequence: Self)
        ensures
            sequence@ == Seq::<Seq<char>>::empty(),
    {
        let sequence = KeySequence { keys: Vec::new() };
        assert(sequence@ =~= Seq::<Seq<char>>::empty());
        sequence
    }

    /// The number of tokens.
    pub fn count(&self) -> (n: usize)
        ensures
            n == self@.len(),
    {
        self.keys.len()
    }

    /// Whether the sequence holds no token.
    pub fn is_empty(&self) -> (b: bool)
        ensures
            b == (self@.len() == 0),
    {
        self.keys.len() == 0
    }

    /// The number of leading tokens that, joined with spaces, take at most
    /// `budget` bytes.
    fn count_visible(&self, budget: usize) -> (shown: usize)
        ensures
            shown == visible_count(self@, budget as nat),
            shown <= self@.len(),
    {
        let ghost tokens = self@;
        let mut shown: usize = 0;
        let mut used: u128 = 0;
        proof {
            assert(join_with_spaces(tokens.take(0)) =~= Seq::empty());
        }
        while shown < self.keys.len()
            invariant
                0 <= shown <= self.keys.len(),
                tokens == self@,
                tokens.len() == self.keys.len(),
                used == utf8_len(join_with_spaces(tokens.take(shown as int))),
                used <= budget,
            ensures
                0 <= shown <= self.keys.len(),
                fits(tokens.take(shown as int), budget as nat),
                shown < tokens.len() ==> !fits(tokens.take(shown + 1), budget as nat),
            decreases self.keys.len() - shown,
        {
            let token_bytes = self.keys[shown].as_str().as_bytes().len();
            let space: u128 = if shown > 0 {
                1
            } else {
                0
            };
            let next: u128 = used + space + token_bytes as u128;
            proof {
                lemma_joined_length_step(tokens, shown as int);
                assert(tokens[shown as int] == self.keys[shown as int]@);
            }
            if next > budget as u128 {
                break ;
            }
            used = next;
            shown = shown + 1;
        }
        proof {
            lemma_visible_count_is(tokens, budget as nat, shown as int);
        }
        shown
    }

    /// The sequence for display: the tokens joined with spaces where that
    /// takes at most `max_length` bytes; else as many leading tokens as fit in
    /// `max_length` less the reserve, followed by ` ... (N more keys)` for the
    /// `N` tokens left out. An empty sequence gives `(no keystrokes recorded)`.
    pub fn format_for_display(&self, max_length: usize) -> (text: String)
        ensures
            text@ == display_text(self@, max_length as nat),
    {
        if self.keys.len() == 0 {
            return "(no keystrokes recorded)".to_string();
        }
        let full_sequence = join_prefix(&self.keys, self.keys.len());
        assert(self@.take(self.keys.len() as int) =~= self@);
        if full_sequence.as_str().as_bytes().len() <= max_length {
            return full_sequence;
        }
        let budget: usize = if max_length >= ELLIPSIS_RESERVE {
            max_length - ELLIPSIS_RESERVE
        } else {
            0
        };
        let shown = self.count_visible(budget);
        let remaining = self.keys.len() - shown;
        let mut text = join_prefix(&self.keys, shown);
        text.append(" ... (");
        push_decimal(&mut text, remaining as u128);
        text.append(" more keys)");
        assert(text@ =~= display_text(self@, max_length as nat));
        text
    }

    /// The tokens joined with spaces, in full.
    pub fn as_string(&self) -> (text: String)
        ensures
            text@ == join_with_spaces(self@),
    {
        let text = join_prefix(&self.keys, self.keys.len());
        assert(self@.take(self.keys.len() as int) =~= self@);
        text
    }

    /// The tokens.
    pub fn keys(&self) -> (keys: &[String])
        ensures
            texts_of(keys@) == self@,
    {
        self.keys.as_slice()
    }
}

} // verus!
