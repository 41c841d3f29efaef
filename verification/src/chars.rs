//! Character classes and maximal runs.
//!
//! The scanner consumes its input in runs: the blanks between tokens, the
//! letters of a word, the digits of a number. This module says which
//! characters belong to each class and how long the run at the head of a text
//! is.

use vstd::prelude::*;
use crate::std_specs::char_is_alphabetic;
use crate::std_specs::char_is_numeric;

verus! {

/// The characters that separate tokens: space, tab, line feed and carriage
/// return.
pub open spec fn is_whitespace(c: char) -> bool {
    c == ' ' || c == '\t' || c == '\n' || c == '\r'
}

/// The characters that may continue a word: alphabetic ones and the
/// underscore. A word starts with an alphabetic character, so it cannot start
/// with an underscore.
pub open spec fn is_word_char(c: char) -> bool {
    char_is_alphabetic(c) || c == '_'
}

/// A class of characters that the scanner consumes as a run.
#[derive(Clone, Copy, PartialEq, Eq, Debug)]
pub enum CharClass {
    /// Blanks between tokens, see [`is_whitespace`].
    Whitespace,
    /// Characters of a word, see [`is_word_char`].
    Word,
    /// Characters of a number, see [`char_is_numeric`].
    Numeric,
}

impl CharClass {
    /// Whether `c` belongs to the class.
    pub open spec fn contains(self, c: char) -> bool {
        match self {
            CharClass::Whitespace => is_whitespace(c),
            CharClass::Word => is_word_char(c),
            CharClass::Numeric => char_is_numeric(c),
        }
    }

    /// Tests whether `c` belongs to the class.
    pub fn has(self, c: char) -> (b: bool)
        ensures
            b == self.contains(c),
    {
        match self {
            CharClass::Whitespace => c == ' ' || c == '\t' || c == '\n' || c == '\r',
            CharClass::Word => c.is_alphabetic() || c == '_',
            CharClass::Numeric => c.is_numeric(),
        }
    }
}

/// The length of the maximal run of `class` at the head of `s`: the number
/// of leading characters of `s` that belong to `class`.
pub open spec fn run_len(s: Seq<char>, class: CharClass) -> nat
    decreases s.len(),
{
    if s.len() > 0 && class.contains(s[0]) {
        1 + run_len(s.drop_first(), class)
    } else {
        0
    }
}

/// Whether `n` is the length of a run of `class` at the head of `s` that
/// cannot be extended: the first `n` characters belong to `class`, and the
/// text ends there or goes on with a character outside `class`.
pub open spec fn is_maximal_run(s: Seq<char>, class: CharClass, n: nat) -> bool {
    &&& n <= s.len()
    &&& forall|i: int| 0 <= i < n ==> class.contains(#[trigger] s[i])
    &&& n < s.len() ==> !class.contains(s[n as int])
}

/// `run_len` is a maximal run.
pub proof fn lemma_run_len_is_maximal(s: Seq<char>, class: CharClass)
    ensures
        is_maximal_run(s, class, run_len(s, class)),
    decreases s.len(),
{
    if s.len() > 0 && class.contains(s[0]) {
        let tail = s.drop_first();
        lemma_run_len_is_maximal(tail, class);
        let n = run_len(s, class);
        assert forall|i: int| 0 <= i < n implies class.contains(#[trigger] s[i]) by {
            if i > 0 {
                assert(s[i] == tail[i - 1]);
            }
        }
    }
}

/// There is only one maximal run at the head of a text, and `run_len` is its
/// length.
pub proof fn lemma_maximal_run_is_run_len(s: Seq<char>, class: CharClass, n: nat)
    requires
        is_maximal_run(s, class, n),
    ensures
        n == run_len(s, class),
    decreases s.len(),
{
    if s.len() > 0 && class.contains(s[0]) {
        lemma_maximal_run_is_run_len(s.drop_first(), class, (n - 1) as nat);
    }
}

} // verus!
