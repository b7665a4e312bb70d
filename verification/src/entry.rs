//! One submitted game result, and how it is read from a line of text or
//! from the fields of a form.

use vstd::prelude::*;
use vstd::string::StringExecFns;
use uuid::Uuid;
use crate::date::{date_of_text, is_iso_date_text, Date};
use crate::error::ParseError;
use crate::score::{lemma_parse_normalizes, normalized, score_of_text, score_text, Score};
use crate::text::{
    all_digits, count_of, cut_at, first_index, holds_no, integer_text, is_char, is_digit,
    lemma_first_where,
    lemma_split_once_joined, split_once,
};

verus! {

/// A game result as submitted: not yet checked against the matchup.
#[derive(Clone, Debug)]
pub struct MatchScoreInput {
    pub matchup_id: Uuid,
    pub winner_initials: String,
    pub score: Score,
    pub played_at: Date,
}

/// The fields of the single-result form, as text.
#[derive(Clone, Debug)]
pub struct MatchScoreForm {
    pub matchup_id: Uuid,
    pub winner_initials: String,
    pub score: String,
    pub played_at: String,
}

/// What a `MatchScoreInput` stands for.
pub struct ScoreEntry {
    pub matchup_id: Uuid,
    pub winner: Seq<char>,
    pub score: Score,
    pub played_at: Date,
}

impl View for MatchScoreInput {
    type V = ScoreEntry;

    open spec fn view(&self) -> ScoreEntry {
        ScoreEntry {
            matchup_id: self.matchup_id,
            winner: self.winner_initials@,
            score: self.score,
            played_at: self.played_at,
        }
    }
}

/// The entry made of a date, a winner and a score given as text. The date is
/// read first, so a bad date is reported even where the score is bad too.
/// The winner is taken as it stands.
pub open spec fn entry_of_fields(
    matchup_id: Uuid,
    played_at: Seq<char>,
    winner: Seq<char>,
    score: Seq<char>,
) -> Result<ScoreEntry, ParseError> {
    match date_of_text(played_at) {
        None => Err(ParseError::InvalidDate),
        Some(date) => match score_of_text(score) {
            None => Err(ParseError::InvalidScore),
            Some(score) => Ok(ScoreEntry { matchup_id, winner, score, played_at: date }),
        },
    }
}

/// The entry that a line `<date> <winner> <score>` writes. The line is cut
/// at its first two spaces; what follows the second one is the score.
pub open spec fn entry_of_line(matchup_id: Uuid, line: Seq<char>) -> Result<
    ScoreEntry,
    ParseError,
> {
    match split_once(line, ' ') {
        None => Err(ParseError::MalformedLine),
        Some((played_at, rest)) => match split_once(rest, ' ') {
            None => Err(ParseError::MalformedLine),
            Some((winner, score)) => entry_of_fields(matchup_id, played_at, winner, score),
        },
    }
}

/// The outcome of a parse, with the entry replaced by what it stands for.
pub open spec fn parsed_view(res: Result<MatchScoreInput, ParseError>) -> Result<
    ScoreEntry,
    ParseError,
> {
    match res {
        Ok(entry) => Ok(entry@),
        Err(e) => Err(e),
    }
}

impl MatchScoreInput {
    /// Reads the fields of the single-result form.
    pub fn new_from_form(score_form: &MatchScoreForm) -> (res: Result<Self, ParseError>)
        ensures
            parsed_view(res) == entry_of_fields(
                score_form.matchup_id,
                score_form.played_at@,
                score_form.winner_initials@,
                score_form.score@,
            ),
            res matches Ok(entry) ==> entry.score.wf(),
    {
        let played_at = match Self::parse_played_at(score_form.played_at.as_str()) {
            Ok(date) => date,
            Err(e) => {
                return Err(e);
            },
        };
        let winner_initials = score_form.winner_initials.clone();
        let matchup_id = score_form.matchup_id;
        let score = match Self::parse_score(score_form.score.as_str()) {
            Ok(score) => score,
            Err(e) => {
                return Err(e);
            },
        };
        Ok(Self { matchup_id, winner_initials, score, played_at })
    }

    /// Reads one line of the form `<date> <winner> <score>`.
    pub fn new_from_str(matchup_id: Uuid, raw_score: &str) -> (res: Result<Self, ParseError>)
        ensures
            parsed_view(res) == entry_of_line(matchup_id, raw_score@),
            res matches Ok(entry) ==> entry.score.wf(),
    {
        let (date_text, rest) = match cut_at(raw_score, ' ') {
            Some(parts) => parts,
            None => {
                return Err(ParseError::MalformedLine);
            },
        };
        let (winner, score_text) = match cut_at(rest, ' ') {
            Some(parts) => parts,
            None => {
                return Err(ParseError::MalformedLine);
            },
        };
        let played_at = match Self::parse_played_at(date_text) {
            Ok(date) => date,
            Err(e) => {
                return Err(e);
            },
        };
        let winner_initials = String::from_str(winner);
        let score = match Self::parse_score(score_text) {
            Ok(score) => score,
            Err(e) => {
                return Err(e);
            },
        };
        Ok(Self { matchup_id, winner_initials, score, played_at })
    }

    /// Reads the day a game was played on, written as `YYYY-MM-DD`.
    pub fn parse_played_at(raw_played_at: &str) -> (res: Result<Date, ParseError>)
        ensures
            res == match date_of_text(raw_played_at@) {
                Some(date) => Ok::<Date, ParseError>(date),
                None => Err(ParseError::InvalidDate),
            },
    {
        match Date::parse(raw_played_at) {
            Some(date) => Ok(date),
            None => Err(ParseError::InvalidDate),
        }
    }

    /// Reads a score written as two counts with a colon between them, in
    /// either order.
    pub fn parse_score(raw_score: &str) -> (res: Result<Score, ParseError>)
        ensures
            res == match score_of_text(raw_score@) {
                Some(score) => Ok::<Score, ParseError>(score),
                None => Err(ParseError::InvalidScore),
            },
            res matches Ok(score) ==> score.wf(),
    {
        match Score::parse(raw_score) {
            Some(score) => Ok(score),
            None => Err(ParseError::InvalidScore),
        }
    }
}

/// A line made of a date, a winner and a score with single spaces between
/// them, of which the date and the winner hold no space, is read as the
/// entry of these three fields.
pub proof fn lemma_line_of_fields(
    matchup_id: Uuid,
    played_at: Seq<char>,
    winner: Seq<char>,
    score: Seq<char>,
)
    requires
        holds_no(played_at, ' '),
        holds_no(winner, ' '),
    ensures
        entry_of_line(matchup_id, played_at + seq![' '] + winner + seq![' '] + score)
            == entry_of_fields(matchup_id, played_at, winner, score),
{
    let rest = winner + seq![' '] + score;
    let line = played_at + seq![' '] + rest;
    assert(line =~= played_at + seq![' '] + winner + seq![' '] + score);
    lemma_split_once_joined(played_at, ' ', rest);
    lemma_split_once_joined(winner, ' ', score);
}

/// A text that writes a date holds no space.
pub proof fn lemma_date_has_no_space(played_at: Seq<char>)
    requires
        date_of_text(played_at) is Some,
    ensures
        holds_no(played_at, ' '),
{
    assert(is_iso_date_text(played_at));
    assert forall|j: int| 0 <= j < played_at.len() implies #[trigger] played_at[j] != ' ' by {
        assert(is_digit(played_at[j]) || played_at[j] == '-');
    }
}

/// A well-formed line is read as what it says: the line made of a date, a
/// winner without spaces and two counts, in this order and with single
/// spaces and a colon between them, gives the entry with that date and
/// that winner, and with the larger count as the winner's score, whichever
/// of the two was written first. Written again, the score is the larger
/// count, a colon, and the smaller count.
pub proof fn lemma_line_normalizes(
    matchup_id: Uuid,
    played_at: Seq<char>,
    winner: Seq<char>,
    left: Seq<char>,
    right: Seq<char>,
    date: Date,
    a: i16,
    b: i16,
)
    requires
        date_of_text(played_at) == Some(date),
        holds_no(winner, ' '),
        count_of(left) == Some(a),
        count_of(right) == Some(b),
    ensures
        entry_of_line(
            matchup_id,
            played_at + seq![' '] + winner + seq![' '] + (left + seq![':'] + right),
        ) == Ok::<ScoreEntry, ParseError>(
            ScoreEntry { matchup_id, winner, score: normalized(a, b), played_at: date },
        ),
        score_text(normalized(a, b)) == integer_text(
            if a >= b {
                a as int
            } else {
                b as int
            },
        ) + seq![':'] + integer_text(
            if a >= b {
                b as int
            } else {
                a as int
            },
        ),
{
    lemma_parse_normalizes(left, right, a, b);
    lemma_date_has_no_space(played_at);
    lemma_line_of_fields(matchup_id, played_at, winner, left + seq![':'] + right);
}

/// A text that writes a count ends in a digit.
pub proof fn lemma_count_ends_in_digit(s: Seq<char>)
    requires
        count_of(s) is Some,
    ensures
        s.len() > 0,
        is_digit(s.last()),
{
    let signed = s[0] == '-' || s[0] == '+';
    if signed {
        let digits = s.skip(1);
        assert(all_digits(digits));
        assert(is_digit(digits[digits.len() - 1]));
    } else {
        assert(is_digit(s[s.len() - 1]));
    }
}

/// A line that is a score entry ends in a digit; so it is not empty and
/// does not end in a carriage return.
pub proof fn lemma_entry_line_ends_in_digit(matchup_id: Uuid, line: Seq<char>)
    requires
        entry_of_line(matchup_id, line) is Ok,
    ensures
        line.len() > 0,
        is_digit(line.last()),
{
    lemma_first_where(line, is_char(' '));
    let rest = line.skip(first_index(line, ' ') as int + 1);
    lemma_first_where(rest, is_char(' '));
    let score = rest.skip(first_index(rest, ' ') as int + 1);
    lemma_first_where(score, is_char(':'));
    let right = score.skip(first_index(score, ':') as int + 1);
    lemma_count_ends_in_digit(right);
    assert(right.last() == score.last());
    assert(score.last() == rest.last());
    assert(rest.last() == line.last());
}

} // verus!
