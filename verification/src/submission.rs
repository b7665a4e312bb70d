//! From submitted text to a batch that may be stored: everything is read
//! first and checked next, and only a batch that passed both is handed out.

use vstd::prelude::*;
use uuid::Uuid;
use crate::batch::{
    entries_of_lines, entries_of_text, entry_views, fails_to_parse, is_score_batch,
    lemma_validated_is_batch, parse_match_scores, validated, MatchInfo, MatchScores,
};
use crate::entry::{entry_of_fields, entry_of_line, MatchScoreForm, MatchScoreInput, ScoreEntry};
use crate::error::{BatchParseError, Fault, ParseError, ValidationError};
use crate::ids::{id_text, id_written};
use crate::text::{first_where, lemma_first_where, lines_of};
use crate::routing_utils::{scores_location, scores_page_location};

verus! {

/// Why a submission is turned down.
#[derive(Clone, Debug)]
pub enum SubmissionError {
    /// The text is not a batch of score entries.
    Parse(BatchParseError),
    /// A field of the form cannot be read.
    Field(ParseError),
    /// The entries are no batch for the matchup.
    Validation(ValidationError),
}

/// What a `SubmissionError` stands for.
pub enum Refusal {
    /// The text is not a batch of score entries.
    Parse(BatchParseError),
    /// A field of the form cannot be read.
    Field(ParseError),
    /// The entries are no batch for the matchup.
    Validation(Fault),
}

impl View for SubmissionError {
    type V = Refusal;

    open spec fn view(&self) -> Refusal {
        match self {
            SubmissionError::Parse(e) => Refusal::Parse(*e),
            SubmissionError::Field(e) => Refusal::Field(*e),
            SubmissionError::Validation(e) => Refusal::Validation(e@),
        }
    }
}

/// The outcome of a submission, with batch and error replaced by what they
/// stand for.
pub open spec fn submission_view(res: Result<MatchScores, SubmissionError>) -> Result<
    Seq<ScoreEntry>,
    Refusal,
> {
    match res {
        Ok(batch) => Ok(batch@),
        Err(e) => Err(e@),
    }
}

/// What comes of checking `entries` against `info`: the batch of all of
/// them, or the refusal that says what is wrong with them.
pub open spec fn checked(info: MatchInfo, entries: Seq<ScoreEntry>) -> Result<
    Seq<ScoreEntry>,
    Refusal,
> {
    match validated(info, entries) {
        Ok(batch) => Ok(batch),
        Err(fault) => Err(Refusal::Validation(fault)),
    }
}

/// What comes of a submitted block of lines: a parse error if the text is
/// no batch, else what comes of checking its entries.
pub open spec fn batch_outcome(info: MatchInfo, matchup_id: Uuid, text: Seq<char>) -> Result<
    Seq<ScoreEntry>,
    Refusal,
> {
    match entries_of_text(matchup_id, text) {
        Err(e) => Err(Refusal::Parse(e)),
        Ok(entries) => checked(info, entries),
    }
}

/// What comes of a submitted single-result form: the error of the first
/// field that cannot be read, else what comes of checking its one entry.
pub open spec fn single_outcome(info: MatchInfo, form: MatchScoreForm) -> Result<
    Seq<ScoreEntry>,
    Refusal,
> {
    match entry_of_fields(form.matchup_id, form.played_at@, form.winner_initials@, form.score@) {
        Err(e) => Err(Refusal::Field(e)),
        Ok(entry) => checked(info, seq![entry]),
    }
}

/// What passes reading and checking is a batch for the matchup, with one
/// entry for each line of the text.
pub proof fn lemma_prepared_batch(info: MatchInfo, matchup_id: Uuid, text: Seq<char>)
    requires
        batch_outcome(info, matchup_id, text) is Ok,
    ensures
        is_score_batch(info, batch_outcome(info, matchup_id, text)->Ok_0),
        batch_outcome(info, matchup_id, text)->Ok_0.len() == lines_of(text).len(),
        matchup_id == info.id,
{
    let lines = lines_of(text);
    let entries = entries_of_lines(matchup_id, lines)->Ok_0;
    lemma_first_where(lines, fails_to_parse(matchup_id));
    lemma_validated_is_batch(info, entries);
    assert(!fails_to_parse(matchup_id)(lines[0]));
    assert(entries[0] == entry_of_line(matchup_id, lines[0])->Ok_0);
}

/// What passes reading and checking of the single-result form is a batch
/// of one entry for the matchup.
pub proof fn lemma_prepared_single(info: MatchInfo, form: MatchScoreForm)
    requires
        single_outcome(info, form) is Ok,
    ensures
        is_score_batch(info, single_outcome(info, form)->Ok_0),
        single_outcome(info, form)->Ok_0.len() == 1,
        form.matchup_id == info.id,
{
    let entry = entry_of_fields(
        form.matchup_id,
        form.played_at@,
        form.winner_initials@,
        form.score@,
    )->Ok_0;
    lemma_validated_is_batch(info, seq![entry]);
    assert(seq![entry][0] == entry);
}

/// Reads a block of score lines and checks the entries against the
/// matchup. A batch comes out only if every line is an entry and every
/// winner plays in the matchup; it then holds all entries in the order of
/// the lines. A parse error is reported before any check of the winners.
pub fn prepare_batch(match_info: MatchInfo, matchup_id: Uuid, raw_matches_list: &str) -> (res:
    Result<MatchScores, SubmissionError>)
    ensures
        submission_view(res) == batch_outcome(match_info, matchup_id, raw_matches_list@),
        res matches Ok(batch) ==> batch.matchup() == match_info && is_score_batch(
            match_info,
            batch@,
        ),
{
    match parse_match_scores(matchup_id, raw_matches_list) {
        Err(e) => Err(SubmissionError::Parse(e)),
        Ok(entries) => match MatchScores::new(entries, match_info) {
            Ok(batch) => Ok(batch),
            Err(e) => Err(SubmissionError::Validation(e)),
        },
    }
}

/// Reads the single-result form and checks the entry against the matchup.
/// A batch of that one entry comes out only if date and score can be read
/// and the winner plays in the matchup.
pub fn prepare_single(match_info: MatchInfo, score_form: &MatchScoreForm) -> (res: Result<
    MatchScores,
    SubmissionError,
>)
    ensures
        submission_view(res) == single_outcome(match_info, *score_form),
        res matches Ok(batch) ==> batch.matchup() == match_info && is_score_batch(
            match_info,
            batch@,
        ),
{
    match MatchScoreInput::new_from_form(score_form) {
        Err(error) => Err(SubmissionError::Field(error)),
        Ok(entry) => {
            let ghost view = entry@;
            let mut entries: Vec<MatchScoreInput> = Vec::new();
            entries.push(entry);
            assert(entry_views(entries@) == seq![view]);
            match MatchScores::new(entries, match_info) {
                Ok(batch) => Ok(batch),
                Err(e) => Err(SubmissionError::Validation(e)),
            }
        },
    }
}

impl Refusal {
    /// The notice shown to the submitter.
    pub open spec fn message_text(self) -> Seq<char> {
        match self {
            Refusal::Parse(e) => e.message_text(),
            Refusal::Field(e) => e.message_text(),
            Refusal::Validation(fault) => fault.message_text(),
        }
    }
}

impl SubmissionError {
    /// The notice shown to the submitter.
    pub fn message(&self) -> (res: String)
        ensures
            res@ == self@.message_text(),
    {
        match self {
            SubmissionError::Parse(e) => e.message(),
            SubmissionError::Field(e) => e.message(),
            SubmissionError::Validation(e) => e.message(),
        }
    }
}

/// The page that the browser is sent to when a submission is done with.
#[derive(Clone, Copy, Debug, PartialEq, Eq, Structural)]
pub enum Destination {
    /// The scores page with no matchup chosen.
    Scores,
    /// The scores page of the matchup that the submission was for.
    Matchup,
}

/// Where the browser is sent, and the notice to show there.
#[derive(Clone, Debug)]
pub struct Redirect {
    pub destination: Destination,
    pub notice: Option<String>,
}

/// What is to be done next with a submission.
#[derive(Debug)]
pub enum Step {
    /// Store this batch, all of it or nothing, and report how that went.
    Store(MatchScores),
    /// Nothing is stored; send the browser on.
    Leave(Redirect),
}

/// What a `Step` stands for.
pub enum Plan {
    /// Store these entries.
    Store(Seq<ScoreEntry>),
    /// Send the browser to the destination, with the notice if there is one.
    Leave(Destination, Option<Seq<char>>),
}

/// The view of an optional notice.
pub open spec fn notice_view(notice: Option<String>) -> Option<Seq<char>> {
    match notice {
        Some(text) => Some(text@),
        None => None,
    }
}

impl View for Redirect {
    type V = (Destination, Option<Seq<char>>);

    open spec fn view(&self) -> (Destination, Option<Seq<char>>) {
        (self.destination, notice_view(self.notice))
    }
}

impl View for Step {
    type V = Plan;

    open spec fn view(&self) -> Plan {
        match self {
            Step::Store(batch) => Plan::Store(batch@),
            Step::Leave(redirect) => Plan::Leave(redirect.destination, notice_view(redirect.notice)),
        }
    }
}

/// What follows from a submission for a matchup that was found: a batch
/// that passed is stored; a refusal sends the browser back to the
/// matchup's page with the refusal's notice.
pub open spec fn plan_for(outcome: Result<Seq<ScoreEntry>, Refusal>) -> Plan {
    match outcome {
        Ok(batch) => Plan::Store(batch),
        Err(refusal) => Plan::Leave(Destination::Matchup, Some(refusal.message_text())),
    }
}

/// What follows when the matchup was not found: nothing is read or stored,
/// and the browser is sent to the scores page with the notice of the
/// failed lookup.
pub open spec fn plan_without_matchup(notice: Seq<char>) -> Plan {
    Plan::Leave(Destination::Scores, Some(notice))
}

/// Turns the outcome of preparing a batch into the next step.
fn step_for(outcome: Result<MatchScores, SubmissionError>) -> (step: Step)
    ensures
        step@ == plan_for(submission_view(outcome)),
{
    match outcome {
        Ok(batch) => Step::Store(batch),
        Err(e) => Step::Leave(
            Redirect { destination: Destination::Matchup, notice: Some(e.message()) },
        ),
    }
}

/// Decides what to do with a submitted block of lines once the matchup was
/// looked up; `lookup` holds the matchup, or the notice of the failed
/// lookup.
pub fn batch_step(lookup: Result<MatchInfo, String>, matchup_id: Uuid, raw_matches_list: &str) -> (step:
    Step)
    ensures
        step@ == match lookup {
            Ok(info) => plan_for(batch_outcome(info, matchup_id, raw_matches_list@)),
            Err(notice) => plan_without_matchup(notice@),
        },
{
    match lookup {
        Ok(info) => step_for(prepare_batch(info, matchup_id, raw_matches_list)),
        Err(notice) => Step::Leave(
            Redirect { destination: Destination::Scores, notice: Some(notice) },
        ),
    }
}

/// Decides what to do with a submitted single-result form once the matchup
/// was looked up; `lookup` holds the matchup, or the notice of the failed
/// lookup.
pub fn single_step(lookup: Result<MatchInfo, String>, score_form: &MatchScoreForm) -> (step: Step)
    ensures
        step@ == match lookup {
            Ok(info) => plan_for(single_outcome(info, *score_form)),
            Err(notice) => plan_without_matchup(notice@),
        },
{
    match lookup {
        Ok(info) => step_for(prepare_single(info, score_form)),
        Err(notice) => Step::Leave(
            Redirect { destination: Destination::Scores, notice: Some(notice) },
        ),
    }
}

/// Where to go after a batch of lines was handed to the store: back to the
/// matchup's page, with the store's complaint if it had one.
pub fn batch_stored(failure: Option<String>) -> (redirect: Redirect)
    ensures
        redirect@ == (Destination::Matchup, notice_view(failure)),
{
    Redirect { destination: Destination::Matchup, notice: failure }
}

/// Where to go after a single result was handed to the store: back to the
/// matchup's page if it was stored, else to the scores page with the
/// store's complaint.
pub fn single_stored(failure: Option<String>) -> (redirect: Redirect)
    ensures
        redirect@ == match failure {
            None => (Destination::Matchup, None::<Seq<char>>),
            Some(notice) => (Destination::Scores, Some(notice@)),
        },
{
    match failure {
        None => Redirect { destination: Destination::Matchup, notice: None },
        Some(notice) => Redirect { destination: Destination::Scores, notice: Some(notice) },
    }
}

impl Redirect {
    /// The address that the browser is sent to, for a submission for the
    /// matchup `matchup_id`. The identifier is written as `uuid` prints it.
    pub fn location(&self, matchup_id: &Uuid) -> (location: String)
        ensures
            location@ == match self.destination {
                Destination::Scores => scores_location(None),
                Destination::Matchup => scores_location(Some(id_written(*matchup_id))),
            },
    {
        match self.destination {
            Destination::Scores => scores_page_location(None),
            Destination::Matchup => {
                let id = id_text(matchup_id);
                scores_page_location(Some(id.as_str()))
            },
        }
    }
}

} // verus!
