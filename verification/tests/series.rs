use robswebhub::batch::{parse_match_scores, MatchInfo, MatchScores};
use robswebhub::date::Date;
use robswebhub::series::{sort_dates, wins_of, MatchScore, PlayerWins, ScoreHistory};
use uuid::Uuid;

fn day(year: i32, month: u32, day: u32) -> Date {
    Date { year, month, day }
}

fn game(winner: &str, played_at: Date) -> MatchScore {
    MatchScore {
        match_id: Uuid::from_u128(1),
        game_id: Uuid::new_v4(),
        winner: String::from(winner),
        played_at,
        winner_score: 3,
        loser_score: 1,
    }
}

fn history(games: &[(&str, Date)]) -> ScoreHistory {
    ScoreHistory(games.iter().map(|(w, d)| game(w, *d)).collect())
}

#[test]
fn dates_are_sorted_by_calendar_order() {
    let dates = vec![day(2023, 3, 1), day(2022, 12, 31), day(2023, 1, 15), day(2023, 1, 2)];
    assert_eq!(
        sort_dates(&dates),
        vec![day(2022, 12, 31), day(2023, 1, 2), day(2023, 1, 15), day(2023, 3, 1)]
    );
    assert_eq!(sort_dates(&Vec::new()), Vec::<Date>::new());
}

#[test]
fn sorting_keeps_repeated_dates() {
    let dates = vec![day(2023, 1, 2), day(2023, 1, 1), day(2023, 1, 2), day(2023, 1, 1)];
    assert_eq!(
        sort_dates(&dates),
        vec![day(2023, 1, 1), day(2023, 1, 1), day(2023, 1, 2), day(2023, 1, 2)]
    );
}

#[test]
fn sorting_agrees_with_the_standard_sort() {
    let mut dates = Vec::new();
    let mut seed: u32 = 12345;
    for _ in 0..300 {
        seed = seed.wrapping_mul(1103515245).wrapping_add(12345);
        let y = 2000 + (seed >> 16) % 5;
        seed = seed.wrapping_mul(1103515245).wrapping_add(12345);
        let m = 1 + (seed >> 16) % 12;
        seed = seed.wrapping_mul(1103515245).wrapping_add(12345);
        let d = 1 + (seed >> 16) % 28;
        dates.push(day(y as i32, m, d));
    }
    let mut expected: Vec<(i32, u32, u32)> =
        dates.iter().map(|d| (d.year, d.month, d.day)).collect();
    expected.sort();
    let got: Vec<(i32, u32, u32)> =
        sort_dates(&dates).iter().map(|d| (d.year, d.month, d.day)).collect();
    assert_eq!(got, expected);
}

#[test]
fn win_series_counts_wins_in_calendar_order() {
    let h = history(&[
        ("AB", day(2023, 1, 9)),
        ("CD", day(2023, 1, 8)),
        ("AB", day(2023, 1, 1)),
        ("AB", day(2023, 1, 5)),
        ("CD", day(2023, 1, 2)),
    ]);
    assert_eq!(
        h.win_series(&String::from("AB")),
        vec![(day(2023, 1, 1), 1), (day(2023, 1, 5), 2), (day(2023, 1, 9), 3)]
    );
    assert_eq!(
        h.win_series(&String::from("CD")),
        vec![(day(2023, 1, 2), 1), (day(2023, 1, 8), 2)]
    );
}

#[test]
fn win_series_of_player_without_wins_is_empty() {
    let h = history(&[("AB", day(2023, 1, 9)), ("AB", day(2023, 1, 1))]);
    assert_eq!(h.win_series(&String::from("CD")), Vec::<(Date, i32)>::new());
    let empty = history(&[]);
    assert_eq!(empty.win_series(&String::from("AB")), Vec::<(Date, i32)>::new());
}

#[test]
fn win_series_counts_rise_by_one_and_dates_never_fall() {
    let h = history(&[
        ("AB", day(2023, 2, 1)),
        ("AB", day(2023, 1, 1)),
        ("CD", day(2023, 1, 1)),
        ("AB", day(2023, 1, 1)),
        ("AB", day(2022, 6, 30)),
    ]);
    let series = h.win_series(&String::from("AB"));
    assert_eq!(series.len(), 4);
    for (i, point) in series.iter().enumerate() {
        assert_eq!(point.1, i as i32 + 1);
        if i > 0 {
            assert!(series[i - 1].0.is_on_or_before(&point.0));
        }
    }
    assert_eq!(series[1].0, series[2].0);
}

#[test]
fn win_series_dates_rise_where_no_day_repeats() {
    let h = history(&[
        ("AB", day(2023, 2, 1)),
        ("AB", day(2023, 1, 1)),
        ("AB", day(2022, 6, 30)),
    ]);
    let series = h.win_series(&String::from("AB"));
    for i in 1..series.len() {
        assert!(series[i - 1].0.is_on_or_before(&series[i].0));
        assert_ne!(series[i - 1].0, series[i].0);
    }
}

#[test]
fn last_counts_add_up_to_the_number_of_games() {
    let h = history(&[
        ("AB", day(2023, 1, 9)),
        ("CD", day(2023, 1, 8)),
        ("AB", day(2023, 1, 1)),
        ("AB", day(2023, 1, 5)),
        ("CD", day(2023, 1, 2)),
    ]);
    let a = h.win_series(&String::from("AB"));
    let b = h.win_series(&String::from("CD"));
    let last = |s: &Vec<(Date, i32)>| s.last().map(|p| p.1).unwrap_or(0);
    assert_eq!(last(&a) + last(&b), 5);
    assert_eq!(a.len() + b.len(), 5);
}

#[test]
fn win_series_is_the_same_when_asked_twice() {
    let h = history(&[
        ("AB", day(2023, 1, 9)),
        ("CD", day(2023, 1, 8)),
        ("AB", day(2023, 1, 9)),
        ("AB", day(2023, 1, 5)),
    ]);
    assert_eq!(h.win_series(&String::from("AB")), h.win_series(&String::from("AB")));
    assert_eq!(h.win_series(&String::from("CD")), h.win_series(&String::from("CD")));
    let first = h.cumm_sum_wins();
    let second = h.cumm_sum_wins();
    assert_eq!(first.len(), second.len());
    for (x, y) in first.iter().zip(second.iter()) {
        assert_eq!(x.player, y.player);
        assert_eq!(x.wins, y.wins);
    }
}

#[test]
fn players_are_the_winners_in_order_of_first_win() {
    let h = history(&[
        ("CD", day(2023, 1, 9)),
        ("AB", day(2023, 1, 8)),
        ("CD", day(2023, 1, 1)),
        ("EF", day(2023, 1, 5)),
        ("AB", day(2023, 1, 2)),
    ]);
    assert_eq!(h.players(), vec!["CD", "AB", "EF"]);
    assert_eq!(history(&[]).players(), Vec::<String>::new());
}

#[test]
fn table_holds_one_series_for_each_winner() {
    let h = history(&[
        ("CD", day(2023, 1, 9)),
        ("AB", day(2023, 1, 8)),
        ("CD", day(2023, 1, 1)),
    ]);
    let table = h.cumm_sum_wins();
    assert_eq!(table.len(), 2);
    assert_eq!(table[0].player, "CD");
    assert_eq!(table[0].wins, vec![(day(2023, 1, 1), 1), (day(2023, 1, 9), 2)]);
    assert_eq!(table[1].player, "AB");
    assert_eq!(table[1].wins, vec![(day(2023, 1, 8), 1)]);
}

#[test]
fn lookup_gives_the_series_or_the_empty_one() {
    let h = history(&[("CD", day(2023, 1, 9)), ("AB", day(2023, 1, 8))]);
    let table = h.cumm_sum_wins();
    assert_eq!(wins_of(&table, &String::from("AB")), vec![(day(2023, 1, 8), 1)]);
    assert_eq!(wins_of(&table, &String::from("CD")), vec![(day(2023, 1, 9), 1)]);
    assert_eq!(wins_of(&table, &String::from("ZZ")), Vec::<(Date, i32)>::new());
}

#[test]
fn lookup_takes_the_first_row_of_a_name() {
    let table = vec![
        PlayerWins { player: String::from("AB"), wins: vec![(day(2023, 1, 1), 1)] },
        PlayerWins { player: String::from("AB"), wins: vec![(day(2024, 1, 1), 1)] },
    ];
    assert_eq!(wins_of(&table, &String::from("AB")), vec![(day(2023, 1, 1), 1)]);
}

#[test]
fn submitted_batch_gives_one_point_for_each_player() {
    let id = Uuid::new_v4();
    let info = MatchInfo { id, player_1: String::from("AB"), player_2: String::from("CD") };
    let entries = parse_match_scores(id, "2023-01-01 AB 3:1\n2023-01-05 CD 2:0").unwrap();
    assert_eq!(entries.len(), 2);
    let batch = MatchScores::new(entries, info).unwrap();
    let rows: Vec<MatchScore> = batch
        .into_entries()
        .into_iter()
        .map(|e| MatchScore {
            match_id: e.matchup_id,
            game_id: Uuid::new_v4(),
            winner: e.winner_initials,
            played_at: e.played_at,
            winner_score: e.score.winner_score,
            loser_score: e.score.loser_score,
        })
        .collect();
    let h = ScoreHistory(rows);
    assert_eq!(h.win_series(&String::from("AB")), vec![(day(2023, 1, 1), 1)]);
    assert_eq!(h.win_series(&String::from("CD")), vec![(day(2023, 1, 5), 1)]);
}
