use robswebhub::batch::MatchInfo;
use robswebhub::chart::{chart_between, match_result_plots, CHART_MARGIN_DAYS};
use robswebhub::date::Date;
use robswebhub::series::{MatchScore, ScoreHistory};
use uuid::Uuid;

fn day(year: i32, month: u32, day: u32) -> Date {
    Date { year, month, day }
}

fn matchup() -> MatchInfo {
    MatchInfo { id: Uuid::from_u128(1), player_1: String::from("AB"), player_2: String::from("CD") }
}

fn history(games: &[(&str, Date)]) -> ScoreHistory {
    ScoreHistory(
        games
            .iter()
            .map(|(w, d)| MatchScore {
                match_id: Uuid::from_u128(1),
                game_id: Uuid::new_v4(),
                winner: String::from(*w),
                played_at: *d,
                winner_score: 3,
                loser_score: 1,
            })
            .collect(),
    )
}

#[test]
fn margin_is_nine_days() {
    assert_eq!(CHART_MARGIN_DAYS, 9);
}

#[test]
fn chart_has_both_series_and_padded_axes() {
    let h = history(&[
        ("CD", day(2023, 3, 25)),
        ("AB", day(2023, 1, 5)),
        ("AB", day(2023, 2, 20)),
        ("CD", day(2023, 1, 9)),
        ("AB", day(2023, 1, 1)),
    ]);
    let chart = match_result_plots(&matchup(), &h).unwrap();
    assert_eq!(
        chart.player_1_wins,
        vec![(day(2023, 1, 1), 1), (day(2023, 1, 5), 2), (day(2023, 2, 20), 3)]
    );
    assert_eq!(chart.player_2_wins, vec![(day(2023, 1, 9), 1), (day(2023, 3, 25), 2)]);
    assert_eq!(chart.first_day, day(2022, 12, 23));
    assert_eq!(chart.last_day, day(2023, 4, 3));
    assert_eq!(chart.top, 4);
    assert_eq!(
        chart.image_path,
        "images/match_plots/00000000-0000-0000-0000-000000000001.png"
    );
}

#[test]
fn chart_margin_crosses_a_leap_day() {
    let h = history(&[("AB", day(2024, 2, 25)), ("AB", day(2024, 3, 5))]);
    let chart = match_result_plots(&matchup(), &h).unwrap();
    assert_eq!(chart.first_day, day(2024, 2, 16));
    assert_eq!(chart.last_day, day(2024, 3, 14));
    let h = history(&[("AB", day(2023, 2, 25))]);
    let chart = match_result_plots(&matchup(), &h).unwrap();
    assert_eq!(chart.first_day, day(2023, 2, 16));
    assert_eq!(chart.last_day, day(2023, 3, 6));
}

#[test]
fn chart_top_is_a_twentieth_above_the_longer_series() {
    let mut games = Vec::new();
    for k in 0..45u32 {
        games.push(("AB", day(2023, 1, 1 + k % 28)));
    }
    for k in 0..19u32 {
        games.push(("CD", day(2023, 2, 1 + k % 28)));
    }
    let chart = match_result_plots(&matchup(), &history(&games)).unwrap();
    assert_eq!(chart.player_1_wins.len(), 45);
    assert_eq!(chart.player_2_wins.len(), 19);
    assert_eq!(chart.top, 45 + 45 / 20 + 1);
    assert_eq!(chart.top, 48);
}

#[test]
fn chart_counts_games_of_strangers_for_the_time_axis_only() {
    let h = history(&[("ZZ", day(2020, 1, 10)), ("AB", day(2023, 1, 10))]);
    let chart = match_result_plots(&matchup(), &h).unwrap();
    assert_eq!(chart.player_1_wins, vec![(day(2023, 1, 10), 1)]);
    assert_eq!(chart.player_2_wins, Vec::<(Date, i32)>::new());
    assert_eq!(chart.first_day, day(2020, 1, 1));
    assert_eq!(chart.last_day, day(2023, 1, 19));
    assert_eq!(chart.top, 2);
}

#[test]
fn no_chart_without_games() {
    assert!(match_result_plots(&matchup(), &history(&[])).is_none());
}

#[test]
fn no_chart_where_a_day_is_not_in_the_calendar() {
    let h = history(&[("AB", day(2023, 2, 30))]);
    assert!(match_result_plots(&matchup(), &h).is_none());
}

#[test]
fn chart_between_given_days_holds_them_and_the_series() {
    let h = history(&[("CD", day(2023, 3, 25)), ("AB", day(2023, 1, 5)), ("AB", day(2023, 1, 1))]);
    let chart = chart_between(&matchup(), &h, day(2000, 1, 1), day(2030, 12, 31), "some-id");
    assert_eq!(chart.player_1_wins, vec![(day(2023, 1, 1), 1), (day(2023, 1, 5), 2)]);
    assert_eq!(chart.player_2_wins, vec![(day(2023, 3, 25), 1)]);
    assert_eq!(chart.first_day, day(2000, 1, 1));
    assert_eq!(chart.last_day, day(2030, 12, 31));
    assert_eq!(chart.top, 3);
    assert_eq!(chart.image_path, "images/match_plots/some-id.png");
}

#[test]
fn chart_between_without_games_is_empty() {
    let chart = chart_between(&matchup(), &history(&[]), day(2000, 1, 1), day(2000, 1, 2), "x");
    assert_eq!(chart.player_1_wins, Vec::<(Date, i32)>::new());
    assert_eq!(chart.player_2_wins, Vec::<(Date, i32)>::new());
    assert_eq!(chart.top, 1);
}
