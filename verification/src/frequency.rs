//! How often a habit is meant to be done.

use crate::text::lowercase_of;
use crate::text::same_text;
use crate::text::to_lowercase;
use vstd::prelude::*;

verus! {

/// The cadence of a habit. It informs the reader and constrains nothing.
#[derive(Clone, Copy, Debug, PartialEq, Eq, Structural)]
pub enum FrequencyHabit {
    Daily,
    Weekly,
    Monthly,
}

impl FrequencyHabit {
    /// The word that stands for this cadence.
    pub open spec fn word(self) -> Seq<char> {
        match self {
            FrequencyHabit::Daily => "daily"@,
            FrequencyHabit::Weekly => "weekly"@,
            FrequencyHabit::Monthly => "monthly"@,
        }
    }

    /// The cadence that a lower-case word stands for, if any.
    pub open spec fn of_word(word: Seq<char>) -> Option<FrequencyHabit> {
        if word == "daily"@ {
            Some(FrequencyHabit::Daily)
        } else if word == "weekly"@ {
            Some(FrequencyHabit::Weekly)
        } else if word == "monthly"@ {
            Some(FrequencyHabit::Monthly)
        } else {
            None
        }
    }

    /// Writing a cadence and reading the word back gives the same cadence,
    /// and a word that is read was one of the three that are written.
    pub proof fn lemma_word_round_trip(self)
        ensures
            FrequencyHabit::of_word(self.word()) == Some(self),
            forall|w: Seq<char>| FrequencyHabit::of_word(w) == Some(self) ==> w == self.word(),
    {
        reveal_strlit("daily");
        reveal_strlit("weekly");
        reveal_strlit("monthly");
        assert("daily"@.len() == 5);
        assert("weekly"@.len() == 6);
        assert("monthly"@.len() == 7);
    }

    /// Reads a cadence from a word that is lower-cased already.
    pub fn from_lowercase(word: &str) -> (r: Option<FrequencyHabit>)
        ensures
            r == FrequencyHabit::of_word(word@),
    {
        if same_text(word, "daily") {
            Some(FrequencyHabit::Daily)
        } else if same_text(word, "weekly") {
            Some(FrequencyHabit::Weekly)
        } else if same_text(word, "monthly") {
            Some(FrequencyHabit::Monthly)
        } else {
            None
        }
    }

    /// Reads a cadence from a word in any mix of cases: the word is
    /// lower-cased and then has to be one of the three.
    pub fn from_str(input: &str) -> (r: Option<FrequencyHabit>)
        ensures
            r == FrequencyHabit::of_word(lowercase_of(input@)),
    {
        let lowered = to_lowercase(input);
        FrequencyHabit::from_lowercase(lowered.as_str())
    }

    /// The word that stands for this cadence.
    pub fn as_str(&self) -> (r: &'static str)
        ensures
            r@ == self.word(),
    {
        match self {
            FrequencyHabit::Daily => "daily",
            FrequencyHabit::Weekly => "weekly",
            FrequencyHabit::Monthly => "monthly",
        }
    }
}

} // verus!
