//! The three priority levels and their lower-case tokens.

use crate::host::{lowercase, to_lowercase};
use vstd::prelude::*;
use vstd::string::StringExecFns;

verus! {

/// Priority level for a todo item.
#[derive(Clone, Copy, Debug, PartialEq, Eq, Structural)]
pub enum Priority {
    Low,
    Medium,
    High,
}

impl Default for Priority {
    fn default() -> (p: Priority)
        ensures
            p == Priority::Medium,
    {
        Priority::Medium
    }
}

impl Priority {
    /// The token that stands for this level wherever a priority is written
    /// as text.
    pub open spec fn token(self) -> Seq<char> {
        match self {
            Priority::Low => "low"@,
            Priority::Medium => "medium"@,
            Priority::High => "high"@,
        }
    }

    /// The level that `text` names, letter for letter.
    pub open spec fn named_by(text: Seq<char>) -> Option<Priority> {
        if text == "low"@ {
            Some(Priority::Low)
        } else if text == "medium"@ {
            Some(Priority::Medium)
        } else if text == "high"@ {
            Some(Priority::High)
        } else {
            None
        }
    }

    /// The message of a failed parse of `text`.
    pub open spec fn unknown_message(text: Seq<char>) -> Seq<char> {
        "Unknown priority: "@ + text
    }

    /// The token of this level.
    pub fn as_str(&self) -> (token: &'static str)
        ensures
            token@ == self.token(),
    {
        match self {
            Priority::Low => "low",
            Priority::Medium => "medium",
            Priority::High => "high",
        }
    }

    /// The token of this level, as an owned text.
    pub fn to_string(&self) -> (token: String)
        ensures
            token@ == self.token(),
    {
        self.as_str().to_owned()
    }

    /// Reads a token that is already in lower case.
    pub fn from_token(token: &str) -> (level: Option<Priority>)
        ensures
            level == Priority::named_by(token@),
    {
        let given = token.to_owned();
        if given == "low".to_owned() {
            Some(Priority::Low)
        } else if given == "medium".to_owned() {
            Some(Priority::Medium)
        } else if given == "high".to_owned() {
            Some(Priority::High)
        } else {
            None
        }
    }

    /// Reads a priority without regard to letter case. An unknown word is
    /// rejected with a message that quotes it as it was given.
    pub fn from_str(s: &str) -> (parsed: Result<Priority, String>)
        ensures
            match parsed {
                Ok(level) => Priority::named_by(lowercase(s@)) == Some(level),
                Err(message) => Priority::named_by(lowercase(s@)) is None
                    && message@ == Priority::unknown_message(s@),
            },
    {
        let lowered = to_lowercase(s);
        match Priority::from_token(lowered.as_str()) {
            Some(level) => Ok(level),
            None => {
                let mut message = "Unknown priority: ".to_owned();
                message.append(s);
                Err(message)
            },
        }
    }
}

/// Every level is named by its own token and by no other text.
pub proof fn law_token_names_its_level(level: Priority, text: Seq<char>)
    ensures
        Priority::named_by(level.token()) == Some(level),
        Priority::named_by(text) == Some(level) <==> text == level.token(),
{
    reveal_strlit("low");
    reveal_strlit("medium");
    reveal_strlit("high");
    assert("low"@.len() == 3 && "medium"@.len() == 6 && "high"@.len() == 4);
}

} // verus!
