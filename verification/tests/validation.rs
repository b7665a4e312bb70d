use robswebhub::batch::{parse_match_scores, MatchInfo, MatchScores};
use robswebhub::error::{BatchParseError, ParseError, ValidationError};
use robswebhub::submission::{
    batch_step, batch_stored, prepare_batch, prepare_single, single_step, single_stored,
    Destination, Redirect, Step, SubmissionError,
};
use robswebhub::entry::MatchScoreForm;
use uuid::Uuid;

fn matchup(id: Uuid) -> MatchInfo {
    MatchInfo { id, player_1: String::from("AB"), player_2: String::from("CD") }
}

fn form(id: Uuid, winner: &str, score: &str, played_at: &str) -> MatchScoreForm {
    MatchScoreForm {
        matchup_id: id,
        winner_initials: String::from(winner),
        score: String::from(score),
        played_at: String::from(played_at),
    }
}

#[test]
fn line_with_unknown_winner_fails_validation() {
    let id = Uuid::new_v4();
    let entries = parse_match_scores(id, "2023-01-01 ZZ 3:1").unwrap();
    let res = MatchScores::new(entries, matchup(id));
    assert_eq!(res.err(), Some(ValidationError::PlayerNotInMatch(String::from("ZZ"))));
}

#[test]
fn unknown_winner_means_nothing_to_store() {
    let id = Uuid::new_v4();
    let step = batch_step(Ok(matchup(id)), id, "2023-01-01 AB 3:1\n2023-01-01 ZZ 3:1");
    match step {
        Step::Store(_) => panic!("a refused batch must not be stored"),
        Step::Leave(redirect) => {
            assert_eq!(redirect.destination, Destination::Matchup);
            assert_eq!(redirect.notice, Some(String::from("Provided player not in match: ZZ")));
        }
    }
}

#[test]
fn prepared_batch_holds_every_line() {
    let id = Uuid::new_v4();
    let batch =
        prepare_batch(matchup(id), id, "2023-01-01 AB 3:1\r\n2023-01-05 CD 2:0\r\n").unwrap();
    assert_eq!(batch.len(), 2);
    let entries = batch.into_entries();
    assert_eq!(entries[0].winner_initials, "AB");
    assert_eq!(entries[1].winner_initials, "CD");
    assert!(entries.iter().all(|e| e.matchup_id == id));
}

#[test]
fn parse_error_comes_before_validation() {
    let id = Uuid::new_v4();
    let res = prepare_batch(matchup(id), id, "2023-01-01 ZZ 3:1\n2023-01-01 AB x:1");
    match res {
        Err(SubmissionError::Parse(e)) => {
            assert_eq!(e, BatchParseError { line: 1, error: ParseError::InvalidScore })
        }
        _ => panic!("expected a parse error"),
    }
}

#[test]
fn empty_submission_is_refused() {
    let id = Uuid::new_v4();
    match prepare_batch(matchup(id), id, "") {
        Err(SubmissionError::Parse(e)) => {
            assert_eq!(e, BatchParseError { line: 0, error: ParseError::EmptyBatch })
        }
        _ => panic!("expected a parse error"),
    }
}

#[test]
fn single_result_becomes_batch_of_one() {
    let id = Uuid::new_v4();
    let batch = prepare_single(matchup(id), &form(id, "CD", "1:3", "2023-01-01")).unwrap();
    assert_eq!(batch.len(), 1);
    let e = &batch.entries()[0];
    assert_eq!(e.winner_initials, "CD");
    assert_eq!((e.score.winner_score, e.score.loser_score), (3, 1));
    assert_eq!(e.matchup_id, id);
}

#[test]
fn single_result_reports_each_failure() {
    let id = Uuid::new_v4();
    match prepare_single(matchup(id), &form(id, "CD", "1:3", "yesterday")) {
        Err(SubmissionError::Field(e)) => assert_eq!(e, ParseError::InvalidDate),
        _ => panic!("expected a parse error"),
    }
    match prepare_single(matchup(id), &form(id, "CD", "1", "2023-01-01")) {
        Err(SubmissionError::Field(e)) => assert_eq!(e, ParseError::InvalidScore),
        _ => panic!("expected a parse error"),
    }
    match prepare_single(matchup(id), &form(id, "ZZ", "1:3", "2023-01-01")) {
        Err(SubmissionError::Validation(e)) => {
            assert_eq!(e, ValidationError::PlayerNotInMatch(String::from("ZZ")))
        }
        _ => panic!("expected a validation error"),
    }
}

#[test]
fn submission_errors_have_notices() {
    let e = SubmissionError::Parse(BatchParseError { line: 0, error: ParseError::InvalidDate });
    assert_eq!(
        e.message(),
        "Failed to parse match score on line 1: Failed to parse the played_at date"
    );
    let e = SubmissionError::Field(ParseError::InvalidScore);
    assert_eq!(e.message(), "Failed to parse the score");
    let e = SubmissionError::Validation(ValidationError::PlayerNotInMatch(String::from("Q")));
    assert_eq!(e.message(), "Provided player not in match: Q");
}

#[test]
fn missing_matchup_sends_to_scores_page() {
    let id = Uuid::new_v4();
    match batch_step(Err(String::from("no rows returned")), id, "2023-01-01 AB 3:1") {
        Step::Leave(redirect) => {
            assert_eq!(redirect.destination, Destination::Scores);
            assert_eq!(redirect.notice, Some(String::from("no rows returned")));
            assert_eq!(redirect.location(&id), "/scores");
        }
        Step::Store(_) => panic!("nothing can be stored without a matchup"),
    }
    match single_step(Err(String::from("gone")), &form(id, "AB", "3:1", "2023-01-01")) {
        Step::Leave(redirect) => {
            assert_eq!(redirect.destination, Destination::Scores);
            assert_eq!(redirect.notice, Some(String::from("gone")));
        }
        Step::Store(_) => panic!("nothing can be stored without a matchup"),
    }
}

#[test]
fn good_submission_is_stored() {
    let id = Uuid::new_v4();
    match batch_step(Ok(matchup(id)), id, "2023-01-01 AB 3:1\n2023-01-02 CD 3:1") {
        Step::Store(batch) => assert_eq!(batch.len(), 2),
        Step::Leave(_) => panic!("expected the batch to be stored"),
    }
    match single_step(Ok(matchup(id)), &form(id, "AB", "3:1", "2023-01-01")) {
        Step::Store(batch) => assert_eq!(batch.len(), 1),
        Step::Leave(_) => panic!("expected the batch to be stored"),
    }
}

#[test]
fn bad_form_sends_back_to_the_matchup() {
    let id = Uuid::new_v4();
    match single_step(Ok(matchup(id)), &form(id, "AB", "3:1", "01.01.2023")) {
        Step::Leave(redirect) => {
            assert_eq!(redirect.destination, Destination::Matchup);
            assert_eq!(
                redirect.notice,
                Some(String::from("Failed to parse the played_at date"))
            );
        }
        Step::Store(_) => panic!("a form with a bad date must not be stored"),
    }
}

#[test]
fn bad_submission_sends_back_to_the_matchup() {
    let id = Uuid::new_v4();
    match batch_step(Ok(matchup(id)), id, "2023-01-01 AB 3:1\nrubbish") {
        Step::Leave(redirect) => {
            assert_eq!(redirect.destination, Destination::Matchup);
            assert_eq!(
                redirect.notice,
                Some(String::from(
                    "Failed to parse match score on line 2: Failed to parse match score"
                ))
            );
            assert_eq!(redirect.location(&id), format!("/scores?matchup_id={}", id));
        }
        Step::Store(_) => panic!("a batch with a bad line must not be stored"),
    }
}

#[test]
fn after_storing_the_browser_is_sent_on() {
    let r: Redirect = batch_stored(None);
    assert_eq!((r.destination, r.notice), (Destination::Matchup, None));
    let r = batch_stored(Some(String::from("disk full")));
    assert_eq!((r.destination, r.notice), (Destination::Matchup, Some(String::from("disk full"))));
    let r = single_stored(None);
    assert_eq!((r.destination, r.notice), (Destination::Matchup, None));
    let r = single_stored(Some(String::from("disk full")));
    assert_eq!((r.destination, r.notice), (Destination::Scores, Some(String::from("disk full"))));
}

#[test]
fn submission_for_another_matchup_is_refused() {
    let id = Uuid::new_v4();
    let other = Uuid::new_v4();
    match prepare_batch(matchup(other), id, "2023-01-01 AB 3:1") {
        Err(SubmissionError::Validation(e)) => assert_eq!(e, ValidationError::WrongMatchup),
        _ => panic!("expected a validation error"),
    }
    match prepare_single(matchup(other), &form(id, "AB", "3:1", "2023-01-01")) {
        Err(SubmissionError::Validation(e)) => assert_eq!(e, ValidationError::WrongMatchup),
        _ => panic!("expected a validation error"),
    }
}
