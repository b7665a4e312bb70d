//! What can go wrong with a submission before anything is stored.

use vstd::prelude::*;
use vstd::string::StringExecFns;
use crate::text::{decimal_text, number_text};

verus! {

/// Why a piece of submitted text is not a score entry.
#[derive(Clone, Copy, Debug, PartialEq, Eq, Structural)]
pub enum ParseError {
    /// The date is not a calendar day written as `YYYY-MM-DD`.
    InvalidDate,
    /// The score is not two counts with a colon between them.
    InvalidScore,
    /// The line does not have a date, a winner and a score, separated by
    /// single spaces.
    MalformedLine,
    /// The submitted block has no lines.
    EmptyBatch,
}

/// A parse error together with the line of the batch that it was found on,
/// counted from 0. An empty batch is reported on line 0.
#[derive(Clone, Copy, Debug, PartialEq, Eq, Structural)]
pub struct BatchParseError {
    pub line: usize,
    pub error: ParseError,
}

/// Why parsed entries are not accepted for a matchup.
#[derive(Clone, Debug, PartialEq, Eq)]
pub enum ValidationError {
    /// There is no entry: a batch holds at least one.
    NoEntries,
    /// The named winner is not one of the two players of the matchup.
    PlayerNotInMatch(String),
    /// An entry was submitted for another matchup.
    WrongMatchup,
    /// An entry's score has a negative count, or the loser's count above
    /// the winner's.
    ScoreOutOfOrder,
}

/// What a `ValidationError` stands for.
pub enum Fault {
    /// There is no entry.
    NoEntries,
    /// The named winner is not one of the two players of the matchup.
    PlayerNotInMatch(Seq<char>),
    /// An entry was submitted for another matchup.
    WrongMatchup,
    /// An entry's score has a negative count, or the loser's count above
    /// the winner's.
    ScoreOutOfOrder,
}

impl View for ValidationError {
    type V = Fault;

    open spec fn view(&self) -> Fault {
        match self {
            ValidationError::NoEntries => Fault::NoEntries,
            ValidationError::PlayerNotInMatch(name) => Fault::PlayerNotInMatch(name@),
            ValidationError::WrongMatchup => Fault::WrongMatchup,
            ValidationError::ScoreOutOfOrder => Fault::ScoreOutOfOrder,
        }
    }
}

impl Fault {
    /// The notice shown to the submitter.
    pub open spec fn message_text(self) -> Seq<char> {
        match self {
            Fault::NoEntries => "No match scores provided"@,
            Fault::PlayerNotInMatch(name) => "Provided player not in match: "@ + name,
            Fault::WrongMatchup => "Score entry is for another matchup"@,
            Fault::ScoreOutOfOrder => "Winner score is below loser score"@,
        }
    }
}

impl ParseError {
    /// The notice shown to the submitter.
    pub open spec fn message_text(self) -> Seq<char> {
        match self {
            ParseError::InvalidDate => "Failed to parse the played_at date"@,
            ParseError::InvalidScore => "Failed to parse the score"@,
            ParseError::MalformedLine => "Failed to parse match score"@,
            ParseError::EmptyBatch => "No match scores provided"@,
        }
    }

    /// The notice shown to the submitter.
    pub fn message(&self) -> (res: String)
        ensures
            res@ == self.message_text(),
    {
        match self {
            ParseError::InvalidDate => String::from_str("Failed to parse the played_at date"),
            ParseError::InvalidScore => String::from_str("Failed to parse the score"),
            ParseError::MalformedLine => String::from_str("Failed to parse match score"),
            ParseError::EmptyBatch => String::from_str("No match scores provided"),
        }
    }
}

impl BatchParseError {
    /// The notice shown to the submitter: what is wrong and, for all but
    /// the empty batch, on which line, counted from 1.
    pub open spec fn message_text(self) -> Seq<char> {
        if self.error == ParseError::EmptyBatch {
            self.error.message_text()
        } else {
            "Failed to parse match score on line "@ + decimal_text(self.line + 1) + ": "@
                + self.error.message_text()
        }
    }

    /// The notice shown to the submitter.
    pub fn message(&self) -> (res: String)
        ensures
            res@ == self.message_text(),
    {
        match self.error {
            ParseError::EmptyBatch => self.error.message(),
            _ => {
                let mut res = String::from_str("Failed to parse match score on line ");
                res.append(number_text(self.line as u128 + 1).as_str());
                res.append(": ");
                res.append(self.error.message().as_str());
                res
            },
        }
    }
}

impl ValidationError {
    /// The notice shown to the submitter.
    pub fn message(&self) -> (res: String)
        ensures
            res@ == self@.message_text(),
    {
        match self {
            ValidationError::NoEntries => String::from_str("No match scores provided"),
            ValidationError::PlayerNotInMatch(name) => String::from_str(
                "Provided player not in match: ",
            ).concat(name.as_str()),
            ValidationError::WrongMatchup => String::from_str("Score entry is for another matchup"),
            ValidationError::ScoreOutOfOrder => String::from_str(
                "Winner score is below loser score",
            ),
        }
    }
}

} // verus!
