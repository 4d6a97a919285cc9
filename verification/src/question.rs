//! The question record and its difficulty tiers.

use vstd::prelude::*;

verus! {

/// The closed set of difficulty tiers a question can belong to.
#[derive(Clone, Copy, PartialEq, Eq, Structural, Debug)]
pub enum Difficulty {
    Easy,
    Medium,
    Hard,
}

/// One quiz question: prompt text, exactly four answer options, the index of
/// the correct option (0 stands for the letter A, 3 for D), its difficulty
/// tier, and an optional explanation shown after a wrong or missed answer.
#[derive(Debug, PartialEq, Eq)]
pub struct Question {
    pub text: String,
    pub options: Vec<String>,
    pub answer: u8,
    pub difficulty: Difficulty,
    pub explanation: Option<String>,
}

impl Question {
    /// A well-formed question has non-empty text, exactly four options, and
    /// an answer index that names one of them.
    pub open spec fn wf(self) -> bool {
        &&& self.text@.len() > 0
        &&& self.options@.len() == 4
        &&& self.answer < 4
    }
}

/// The letter the user must type for an answer index: 0 is A, ..., 3 is D.
pub open spec fn spec_answer_letter(idx: u8) -> char
    recommends
        idx < 4,
{
    if idx == 0 {
        'A'
    } else if idx == 1 {
        'B'
    } else if idx == 2 {
        'C'
    } else {
        'D'
    }
}

/// The letter of an answer index, for display alongside the options.
pub fn answer_letter(idx: u8) -> (r: char)
    requires
        idx < 4,
    ensures
        r == spec_answer_letter(idx),
{
    if idx == 0 {
        'A'
    } else if idx == 1 {
        'B'
    } else if idx == 2 {
        'C'
    } else {
        'D'
    }
}

/// The answer index named by a key, accepting either case: A or a is 0, up
/// to D or d as 3; any other key names no option.
pub open spec fn spec_answer_index(c: char) -> Option<u8> {
    if c == 'A' || c == 'a' {
        Some(0u8)
    } else if c == 'B' || c == 'b' {
        Some(1u8)
    } else if c == 'C' || c == 'c' {
        Some(2u8)
    } else if c == 'D' || c == 'd' {
        Some(3u8)
    } else {
        None
    }
}

/// Maps a typed key to the answer index it names, if any.
pub fn answer_index(c: char) -> (r: Option<u8>)
    ensures
        r == spec_answer_index(c),
        r is Some ==> r.unwrap() < 4,
{
    match c {
        'A' | 'a' => Some(0),
        'B' | 'b' => Some(1),
        'C' | 'c' => Some(2),
        'D' | 'd' => Some(3),
        _ => None,
    }
}

} // verus!
