use robswebhub::batch::{parse_match_scores, MatchInfo, MatchScores};
use robswebhub::date::Date;
use robswebhub::entry::MatchScoreInput;
use robswebhub::error::{BatchParseError, ParseError, ValidationError};
use robswebhub::score::Score;
use uuid::Uuid;

fn matchup(id: Uuid) -> MatchInfo {
    MatchInfo { id, player_1: String::from("AB"), player_2: String::from("CD") }
}

fn entry(id: Uuid, winner: &str, day: u32) -> MatchScoreInput {
    MatchScoreInput {
        matchup_id: id,
        winner_initials: String::from(winner),
        score: Score { winner_score: 3, loser_score: 1 },
        played_at: Date { year: 2023, month: 1, day },
    }
}

#[test]
fn parsing_single_score_works() {
    let raw_match_scores = "2022-02-22 P1 16:1";
    let matchup_id = Uuid::new_v4();
    let res = parse_match_scores(matchup_id, raw_match_scores).unwrap();
    assert!(res[0].matchup_id == matchup_id);
}

#[test]
fn parsing_multiple_scores_works() {
    let raw_match_scores = "2022-02-22 P1 16:1\r\n2022-02-22 P1 16:1";
    let matchup_id = Uuid::new_v4();
    let res = parse_match_scores(matchup_id, raw_match_scores).unwrap();
    assert!(res[0].matchup_id == matchup_id);
    assert!(res[1].matchup_id == matchup_id);
}

#[test]
fn empty_text_fails_with_empty_batch() {
    let res = parse_match_scores(Uuid::new_v4(), "");
    assert_eq!(res.err(), Some(BatchParseError { line: 0, error: ParseError::EmptyBatch }));
}

#[test]
fn well_formed_lines_give_entries_in_their_order() {
    let id = Uuid::new_v4();
    let text = "2023-01-09 AB 3:1\n2023-01-02 CD 0:2\r\n2023-01-05 AB 7:5\n";
    let res = parse_match_scores(id, text).unwrap();
    assert_eq!(res.len(), 3);
    let winners: Vec<&str> = res.iter().map(|e| e.winner_initials.as_str()).collect();
    assert_eq!(winners, vec!["AB", "CD", "AB"]);
    let days: Vec<u32> = res.iter().map(|e| e.played_at.day).collect();
    assert_eq!(days, vec![9, 2, 5]);
    let scores: Vec<(i16, i16)> =
        res.iter().map(|e| (e.score.winner_score, e.score.loser_score)).collect();
    assert_eq!(scores, vec![(3, 1), (2, 0), (7, 5)]);
    assert!(res.iter().all(|e| e.matchup_id == id));
}

#[test]
fn many_lines_give_as_many_entries() {
    let id = Uuid::new_v4();
    let mut text = String::new();
    for k in 0..200 {
        text.push_str(&format!("2023-01-{:02} AB {}:{}\n", k % 28 + 1, k, k + 1));
    }
    let res = parse_match_scores(id, &text).unwrap();
    assert_eq!(res.len(), 200);
    for (k, e) in res.iter().enumerate() {
        assert_eq!(e.score.winner_score as usize, k + 1);
        assert_eq!(e.score.loser_score as usize, k);
        assert_eq!(e.played_at.day as usize, k % 28 + 1);
    }
}

#[test]
fn one_bad_line_fails_the_batch_whatever_its_position() {
    let id = Uuid::new_v4();
    let good = "2023-01-01 AB 3:1";
    let bad = "2023-01-01 AB three:one";
    for position in 0..4 {
        let mut lines = vec![good; 4];
        lines[position] = bad;
        let res = parse_match_scores(id, &lines.join("\n"));
        assert_eq!(
            res.err(),
            Some(BatchParseError { line: position, error: ParseError::InvalidScore })
        );
    }
}

#[test]
fn first_bad_line_is_the_one_reported() {
    let id = Uuid::new_v4();
    let text = "2023-01-01 AB 3:1\nnot-a-date AB 3:1\n2023-01-01 AB x\nrubbish";
    let res = parse_match_scores(id, text);
    assert_eq!(res.err(), Some(BatchParseError { line: 1, error: ParseError::InvalidDate }));
}

#[test]
fn blank_line_fails_the_batch() {
    let id = Uuid::new_v4();
    let res = parse_match_scores(id, "2023-01-01 AB 3:1\n\n2023-01-02 AB 3:1");
    assert_eq!(res.err(), Some(BatchParseError { line: 1, error: ParseError::MalformedLine }));
    let res = parse_match_scores(id, "\n");
    assert_eq!(res.err(), Some(BatchParseError { line: 0, error: ParseError::MalformedLine }));
}

#[test]
fn batch_errors_name_the_line() {
    let e = BatchParseError { line: 0, error: ParseError::EmptyBatch };
    assert_eq!(e.message(), "No match scores provided");
    let e = BatchParseError { line: 2, error: ParseError::InvalidScore };
    assert_eq!(e.message(), "Failed to parse match score on line 3: Failed to parse the score");
    let e = BatchParseError { line: usize::MAX, error: ParseError::InvalidDate };
    assert_eq!(
        e.message(),
        format!(
            "Failed to parse match score on line {}: Failed to parse the played_at date",
            usize::MAX as u128 + 1
        )
    );
}

#[test]
fn players_of_the_matchup_are_recognised() {
    let info = matchup(Uuid::new_v4());
    assert!(info.player_in_match(&String::from("AB")));
    assert!(info.player_in_match(&String::from("CD")));
    assert!(!info.player_in_match(&String::from("ZZ")));
    assert!(!info.player_in_match(&String::from("ab")));
    assert!(!info.player_in_match(&String::from("")));
    assert!(!info.player_in_match(&String::from("ABCD")));
}

#[test]
fn batch_with_known_winners_is_accepted_whole() {
    let id = Uuid::new_v4();
    let entries = vec![entry(id, "CD", 3), entry(id, "AB", 1), entry(id, "CD", 2)];
    let batch = MatchScores::new(entries, matchup(id)).unwrap();
    assert_eq!(batch.len(), 3);
    let winners: Vec<&str> =
        batch.entries().iter().map(|e| e.winner_initials.as_str()).collect();
    assert_eq!(winners, vec!["CD", "AB", "CD"]);
    let days: Vec<u32> = batch.into_entries().iter().map(|e| e.played_at.day).collect();
    assert_eq!(days, vec![3, 1, 2]);
}

#[test]
fn one_unknown_winner_rejects_the_batch_whatever_its_position() {
    let id = Uuid::new_v4();
    for position in 0..4 {
        let mut entries = vec![entry(id, "AB", 1), entry(id, "CD", 2), entry(id, "AB", 3), entry(id, "CD", 4)];
        entries[position] = entry(id, "ZZ", 5);
        let res = MatchScores::new(entries, matchup(id));
        assert_eq!(res.err(), Some(ValidationError::PlayerNotInMatch(String::from("ZZ"))));
    }
}

#[test]
fn first_unknown_winner_is_the_one_named() {
    let id = Uuid::new_v4();
    let entries = vec![entry(id, "AB", 1), entry(id, "XX", 2), entry(id, "YY", 3)];
    let res = MatchScores::new(entries, matchup(id));
    assert_eq!(res.err(), Some(ValidationError::PlayerNotInMatch(String::from("XX"))));
}

#[test]
fn validation_error_has_notice() {
    let e = ValidationError::PlayerNotInMatch(String::from("ZZ"));
    assert_eq!(e.message(), "Provided player not in match: ZZ");
}

#[test]
fn empty_vector_is_no_batch() {
    let id = Uuid::new_v4();
    let res = MatchScores::new(Vec::new(), matchup(id));
    assert_eq!(res.err(), Some(ValidationError::NoEntries));
}

#[test]
fn score_out_of_order_rejects_the_batch() {
    let id = Uuid::new_v4();
    let mut bad = entry(id, "AB", 1);
    bad.score = Score { winner_score: 1, loser_score: 3 };
    let res = MatchScores::new(vec![entry(id, "CD", 2), bad], matchup(id));
    assert_eq!(res.err(), Some(ValidationError::ScoreOutOfOrder));
    let mut negative = entry(id, "AB", 1);
    negative.score = Score { winner_score: 3, loser_score: -1 };
    let res = MatchScores::new(vec![negative], matchup(id));
    assert_eq!(res.err(), Some(ValidationError::ScoreOutOfOrder));
}

#[test]
fn tie_is_accepted_in_a_batch() {
    let id = Uuid::new_v4();
    let mut tie = entry(id, "AB", 1);
    tie.score = Score { winner_score: 2, loser_score: 2 };
    assert_eq!(MatchScores::new(vec![tie], matchup(id)).unwrap().len(), 1);
}

#[test]
fn entry_for_another_matchup_rejects_the_batch() {
    let id = Uuid::new_v4();
    let other = Uuid::new_v4();
    let res = MatchScores::new(vec![entry(id, "AB", 1), entry(other, "CD", 2)], matchup(id));
    assert_eq!(res.err(), Some(ValidationError::WrongMatchup));
    let res = MatchScores::new(vec![entry(id, "AB", 1)], matchup(other));
    assert_eq!(res.err(), Some(ValidationError::WrongMatchup));
}

#[test]
fn unknown_winner_is_named_before_any_other_fault() {
    let id = Uuid::new_v4();
    let other = Uuid::new_v4();
    let mut bad = entry(other, "AB", 1);
    bad.score = Score { winner_score: 1, loser_score: 3 };
    let res = MatchScores::new(vec![bad, entry(id, "ZZ", 2)], matchup(id));
    assert_eq!(res.err(), Some(ValidationError::PlayerNotInMatch(String::from("ZZ"))));
}

#[test]
fn wrong_matchup_is_reported_before_the_score_of_the_same_entry() {
    let id = Uuid::new_v4();
    let other = Uuid::new_v4();
    let mut bad = entry(other, "AB", 1);
    bad.score = Score { winner_score: 1, loser_score: 3 };
    let res = MatchScores::new(vec![bad], matchup(id));
    assert_eq!(res.err(), Some(ValidationError::WrongMatchup));
    let mut unordered = entry(id, "AB", 1);
    unordered.score = Score { winner_score: 1, loser_score: 3 };
    let res = MatchScores::new(vec![unordered, entry(other, "AB", 2)], matchup(id));
    assert_eq!(res.err(), Some(ValidationError::ScoreOutOfOrder));
}

#[test]
fn batch_remembers_its_matchup() {
    let id = Uuid::new_v4();
    let batch = MatchScores::new(vec![entry(id, "AB", 1)], matchup(id)).unwrap();
    assert_eq!(batch.matchup_info().id, id);
    assert_eq!(batch.matchup_info().player_1, "AB");
    assert_eq!(batch.matchup_info().player_2, "CD");
}

#[test]
fn final_line_break_opens_no_line() {
    let id = Uuid::new_v4();
    assert_eq!(parse_match_scores(id, "2023-01-01 AB 3:1\n").unwrap().len(), 1);
    assert_eq!(parse_match_scores(id, "2023-01-01 AB 3:1\r\n").unwrap().len(), 1);
    let res = parse_match_scores(id, "2023-01-01 AB 3:1\n\n");
    assert_eq!(res.err(), Some(BatchParseError { line: 1, error: ParseError::MalformedLine }));
}

#[test]
fn validation_errors_have_notices() {
    assert_eq!(ValidationError::NoEntries.message(), "No match scores provided");
    assert_eq!(ValidationError::WrongMatchup.message(), "Score entry is for another matchup");
    assert_eq!(ValidationError::ScoreOutOfOrder.message(), "Winner score is below loser score");
}
