//! Errors that end one round of the console game.

use vstd::prelude::*;
use crate::number::{decimal_digits, decimal_text};

verus! {

/// What can go wrong while a round of the console game is played.
#[derive(Debug, Clone, Copy, PartialEq, Eq, Structural)]
pub enum OnGameError {
    StdinInputFailed,
    InvalidTargetInputNotASCII,
    InvalidTargetTooShort,
    ParseFaild,
    GetWordsFailed,
    InvalidSelectOver,
}

/// The number shown for each error.
pub open spec fn error_id_spec(e: OnGameError) -> i32 {
    match e {
        OnGameError::StdinInputFailed => 1,
        OnGameError::InvalidTargetInputNotASCII => 3,
        OnGameError::InvalidTargetTooShort => 4,
        OnGameError::ParseFaild => 5,
        OnGameError::GetWordsFailed => 6,
        OnGameError::InvalidSelectOver => 7,
    }
}

/// The message shown for each error.
pub open spec fn error_msg_spec(e: OnGameError) -> Seq<char> {
    match e {
        OnGameError::StdinInputFailed => "failed to get input from stdin!"@,
        OnGameError::InvalidTargetInputNotASCII => "Target text must be ASCII"@,
        OnGameError::InvalidTargetTooShort => "Target text must be longer than 5 words"@,
        OnGameError::ParseFaild => "failed to parse input to usize"@,
        OnGameError::GetWordsFailed => "faied to get word list from included bytes"@,
        OnGameError::InvalidSelectOver => "Select number must be in the range:1..=4"@,
    }
}

/// The name of each error as `Debug` prints it.
pub open spec fn error_name_spec(e: OnGameError) -> Seq<char> {
    match e {
        OnGameError::StdinInputFailed => "StdinInputFailed"@,
        OnGameError::InvalidTargetInputNotASCII => "InvalidTargetInputNotASCII"@,
        OnGameError::InvalidTargetTooShort => "InvalidTargetTooShort"@,
        OnGameError::ParseFaild => "ParseFaild"@,
        OnGameError::GetWordsFailed => "GetWordsFailed"@,
        OnGameError::InvalidSelectOver => "InvalidSelectOver"@,
    }
}

/// The full line shown for an error: its number, its name and its message.
pub open spec fn error_line_spec(e: OnGameError) -> Seq<char> {
    "Error: ID: "@ + decimal_digits(error_id_spec(e) as nat) + " "@ + error_name_spec(e)
        + ", Message: "@ + error_msg_spec(e)
}

impl OnGameError {
    /// The number that identifies this error to the player.
    pub fn error_id(self) -> (id: i32)
        ensures
            id == error_id_spec(self),
    {
        match self {
            Self::StdinInputFailed => 1,
            Self::InvalidTargetInputNotASCII => 3,
            Self::InvalidTargetTooShort => 4,
            Self::ParseFaild => 5,
            Self::GetWordsFailed => 6,
            Self::InvalidSelectOver => 7,
        }
    }

    /// The explanation shown to the player.
    pub fn error_msg(self) -> (msg: &'static str)
        ensures
            msg@ == error_msg_spec(self),
    {
        match self {
            Self::StdinInputFailed => "failed to get input from stdin!",
            Self::InvalidTargetInputNotASCII => "Target text must be ASCII",
            Self::InvalidTargetTooShort => "Target text must be longer than 5 words",
            Self::ParseFaild => "failed to parse input to usize",
            Self::GetWordsFailed => "faied to get word list from included bytes",
            Self::InvalidSelectOver => "Select number must be in the range:1..=4",
        }
    }

    /// The name of the error, as `Debug` writes it.
    pub fn name(self) -> (name: &'static str)
        ensures
            name@ == error_name_spec(self),
    {
        match self {
            Self::StdinInputFailed => "StdinInputFailed",
            Self::InvalidTargetInputNotASCII => "InvalidTargetInputNotASCII",
            Self::InvalidTargetTooShort => "InvalidTargetTooShort",
            Self::ParseFaild => "ParseFaild",
            Self::GetWordsFailed => "GetWordsFailed",
            Self::InvalidSelectOver => "InvalidSelectOver",
        }
    }

    /// The line that displays the error: `Error: ID: <id> <name>, Message: <message>`.
    pub fn to_message(self) -> (line: String)
        ensures
            line@ == error_line_spec(self),
    {
        let id = self.error_id();
        let mut line = String::from_str("Error: ID: ");
        let digits = decimal_text(id as u64);
        line.append(digits.as_str());
        line.append(" ");
        line.append(self.name());
        line.append(", Message: ");
        line.append(self.error_msg());
        line
    }
}

/// Every error has a number of its own.
pub proof fn lemma_error_ids_distinct(a: OnGameError, b: OnGameError)
    ensures
        error_id_spec(a) == error_id_spec(b) <==> a == b,
{
}

} // verus!
