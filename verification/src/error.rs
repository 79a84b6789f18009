//! Why an agent cannot be registered.
use vstd::prelude::*;

use crate::names::NameError;

verus! {

/// Why an agent cannot be registered.
#[derive(Debug)]
pub enum AgentError {
    /// An agent is registered by this name already.
    AlreadyExists(String),
    /// The agent's name breaks a rule.
    InvalidName(NameError),
}

impl NameError {
    /// The rule that is broken, in words.
    pub open spec fn reason(self) -> Seq<char> {
        match self {
            NameError::Empty => "name is empty"@,
            NameError::TooLong => "name has more than 64 characters"@,
            NameError::BadStart => "name does not start with a lowercase letter"@,
            NameError::BadCharacter(_) => "name holds an invalid character"@,
        }
    }

    /// Returns the rule that is broken, in words.
    pub fn message(&self) -> (text: String)
        ensures
            text@ == self.reason(),
    {
        match self {
            NameError::Empty => "name is empty".to_string(),
            NameError::TooLong => "name has more than 64 characters".to_string(),
            NameError::BadStart => "name does not start with a lowercase letter".to_string(),
            NameError::BadCharacter(_) => "name holds an invalid character".to_string(),
        }
    }
}

impl AgentError {
    /// The error, in words.
    pub open spec fn reason(self) -> Seq<char> {
        match self {
            AgentError::AlreadyExists(name) => "agent "@ + name@ + " already exists"@,
            AgentError::InvalidName(error) => error.reason(),
        }
    }

    /// Returns the error, in words.
    pub fn message(&self) -> (text: String)
        ensures
            text@ == self.reason(),
    {
        match self {
            AgentError::AlreadyExists(name) => {
                "agent ".to_string().concat(name.as_str()).concat(" already exists")
            },
            AgentError::InvalidName(error) => error.message(),
        }
    }
}

} // verus!
