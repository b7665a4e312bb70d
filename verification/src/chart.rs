//! What the win chart of a matchup shows: the two players' win series and
//! the ranges of its axes. Drawing is left to the caller.

use vstd::prelude::*;
use crate::batch::MatchInfo;
use crate::ids::{id_text, id_written};
use crate::pages::{plot_path, plot_path_of};
use crate::date::{add_days, date_le, days_after, days_before, sub_days, Date};
use crate::series::{is_win_series, lemma_series_add_up, win_dates, PlayedGame, ScoreHistory};

verus! {

/// Days left free on the time axis before the first game and after the last.
pub const CHART_MARGIN_DAYS: u64 = 9;

/// The data of a win chart.
#[derive(Clone, Debug)]
pub struct WinChart {
    /// Win series of the matchup's first player.
    pub player_1_wins: Vec<(Date, i32)>,
    /// Win series of the matchup's second player.
    pub player_2_wins: Vec<(Date, i32)>,
    /// Where the time axis starts.
    pub first_day: Date,
    /// Where the time axis ends.
    pub last_day: Date,
    /// Where the axis of wins ends; it starts at 0.
    pub top: i32,
    /// The file that the drawn chart is kept in.
    pub image_path: String,
}

/// The days on which `games` were played, game by game.
pub open spec fn played_days(games: Seq<PlayedGame>) -> Seq<Date> {
    games.map_values(|g: PlayedGame| g.played_at)
}

/// The earliest of `days`, which must not be empty.
pub open spec fn earliest(days: Seq<Date>) -> Date
    recommends
        days.len() > 0,
    decreases days.len(),
{
    if days.len() <= 1 {
        days[0]
    } else if date_le(earliest(days.drop_last()), days.last()) {
        earliest(days.drop_last())
    } else {
        days.last()
    }
}

/// The latest of `days`, which must not be empty.
pub open spec fn latest(days: Seq<Date>) -> Date
    recommends
        days.len() > 0,
    decreases days.len(),
{
    if days.len() <= 1 {
        days[0]
    } else if date_le(days.last(), latest(days.drop_last())) {
        latest(days.drop_last())
    } else {
        days.last()
    }
}

/// Where the axis of wins ends for a chart whose longest series has
/// `max_wins` points: a twentieth above it, and at least one.
pub open spec fn chart_top(max_wins: int) -> int {
    max_wins + (max_wins / 20 + 1)
}

/// The earliest and the latest day are among the days, and every day lies
/// between them.
pub proof fn lemma_earliest_latest(days: Seq<Date>)
    requires
        days.len() > 0,
    ensures
        days.contains(earliest(days)),
        days.contains(latest(days)),
        forall|i: int|
            0 <= i < days.len() ==> date_le(earliest(days), #[trigger] days[i]) && date_le(
                days[i],
                latest(days),
            ),
    decreases days.len(),
{
    if days.len() > 1 {
        let front = days.drop_last();
        lemma_earliest_latest(front);
        let e = choose|i: int| 0 <= i < front.len() && front[i] == earliest(front);
        let l = choose|i: int| 0 <= i < front.len() && front[i] == latest(front);
        assert(days[e] == earliest(front));
        assert(days[l] == latest(front));
        assert(days[days.len() - 1] == days.last());
        assert forall|i: int| 0 <= i < days.len() implies date_le(
            earliest(days),
            #[trigger] days[i],
        ) && date_le(days[i], latest(days)) by {
            if i < front.len() {
                assert(front[i] == days[i]);
            }
        }
    } else {
        assert(days[0] == earliest(days));
    }
}

/// No player has more win days than there are games.
pub proof fn lemma_wins_bounded(games: Seq<PlayedGame>, player: Seq<char>)
    ensures
        win_dates(games, player).len() <= games.len(),
    decreases games.len(),
{
    if games.len() > 0 {
        lemma_wins_bounded(games.drop_last(), player);
    }
}

/// For a matchup of two different players whose games were all won by one
/// of them, the two win series have one point for each game between them.
pub proof fn lemma_series_count_every_game(
    info: MatchInfo,
    games: Seq<PlayedGame>,
    player_1_wins: Seq<(Date, i32)>,
    player_2_wins: Seq<(Date, i32)>,
)
    requires
        info.wf(),
        forall|i: int| 0 <= i < games.len() ==> info.has_player((#[trigger] games[i]).winner),
        is_win_series(games, info.player_1@, player_1_wins),
        is_win_series(games, info.player_2@, player_2_wins),
    ensures
        player_1_wins.len() + player_2_wins.len() == games.len(),
{
    lemma_series_add_up(games, info.player_1@, info.player_2@, player_1_wins, player_2_wins);
}

/// The earliest and the latest day on which one of `games` was played.
fn day_range(games: &ScoreHistory) -> (range: (Date, Date))
    requires
        games@.len() > 0,
    ensures
        range.0 == earliest(played_days(games@)),
        range.1 == latest(played_days(games@)),
{
    let ghost days = played_days(games@);
    let mut lo = games.0[0].played_at;
    let mut hi = games.0[0].played_at;
    let mut i: usize = 1;
    assert(days.take(1)[0] == days[0]);
    while i < games.0.len()
        invariant
            days == played_days(games@),
            1 <= i <= games.0.len(),
            lo == earliest(days.take(i as int)),
            hi == latest(days.take(i as int)),
        decreases games.0.len() - i,
    {
        let d = games.0[i].played_at;
        proof {
            let taken = days.take(i + 1);
            assert(taken.drop_last() == days.take(i as int));
            assert(taken.last() == d);
        }
        if !lo.is_on_or_before(&d) {
            lo = d;
        }
        if !d.is_on_or_before(&hi) {
            hi = d;
        }
        i += 1;
    }
    assert(days.take(games.0.len() as int) == days);
    (lo, hi)
}

/// The longer of two lengths.
pub open spec fn longer(a: nat, b: nat) -> int {
    if a >= b {
        a as int
    } else {
        b as int
    }
}

/// Whether `chart` is the win chart of the matchup `info` over `games`,
/// on a time axis from `first_day` to `last_day`, kept in the file named
/// after `match_id`: it holds the win series of the two players, these
/// two days, and an axis of wins that ends a twentieth above the longer
/// series.
pub open spec fn is_win_chart(
    info: MatchInfo,
    games: Seq<PlayedGame>,
    first_day: Date,
    last_day: Date,
    match_id: Seq<char>,
    chart: WinChart,
) -> bool {
    &&& is_win_series(games, info.player_1@, chart.player_1_wins@)
    &&& is_win_series(games, info.player_2@, chart.player_2_wins@)
    &&& chart.first_day == first_day
    &&& chart.last_day == last_day
    &&& chart.top == chart_top(longer(chart.player_1_wins@.len(), chart.player_2_wins@.len()))
    &&& chart.image_path@ == plot_path_of(match_id)
}

/// Puts the win chart of a matchup together from its recorded games, the
/// two ends of the time axis and the matchup's identifier as text.
pub fn chart_between(
    match_information: &MatchInfo,
    match_scores: &ScoreHistory,
    first_day: Date,
    last_day: Date,
    match_id: &str,
) -> (chart: WinChart)
    requires
        chart_top(match_scores@.len() as int) <= i32::MAX,
    ensures
        is_win_chart(
            *match_information,
            match_scores@,
            first_day,
            last_day,
            match_id@,
            chart,
        ),
{
    let table = match_scores.cumm_sum_wins();
    let player_1_wins = crate::series::wins_of(&table, &match_information.player_1);
    let player_2_wins = crate::series::wins_of(&table, &match_information.player_2);
    proof {
        crate::series::lemma_table_lookup(
            match_scores@,
            table@,
            match_information.player_1@,
            player_1_wins@,
        );
        crate::series::lemma_table_lookup(
            match_scores@,
            table@,
            match_information.player_2@,
            player_2_wins@,
        );
        crate::series::lemma_series_is_ordered(
            match_scores@,
            match_information.player_1@,
            player_1_wins@,
        );
        crate::series::lemma_series_is_ordered(
            match_scores@,
            match_information.player_2@,
            player_2_wins@,
        );
        lemma_wins_bounded(match_scores@, match_information.player_1@);
        lemma_wins_bounded(match_scores@, match_information.player_2@);
    }
    let max_wins: i32 = if player_1_wins.len() >= player_2_wins.len() {
        player_1_wins.len() as i32
    } else {
        player_2_wins.len() as i32
    };
    let top: i32 = max_wins + (max_wins / 20 + 1);
    let image_path = plot_path(match_id);
    WinChart { player_1_wins, player_2_wins, first_day, last_day, top, image_path }
}

/// Works out the win chart of a matchup from its recorded games: the win
/// series of its two players, a time axis from nine days before the first
/// game to nine days after the last, and an axis of wins that ends a
/// twentieth above the longer series. The chart's file is named after the
/// matchup's identifier, as `uuid` prints it. There is no chart for a
/// matchup without games, nor where the time axis would leave the
/// calendar.
pub fn match_result_plots(match_information: &MatchInfo, match_scores: &ScoreHistory) -> (res:
    Option<WinChart>)
    requires
        chart_top(match_scores@.len() as int) <= i32::MAX,
    ensures
        match res {
            Some(chart) => {
                &&& match_scores@.len() > 0
                &&& days_before(earliest(played_days(match_scores@)), CHART_MARGIN_DAYS) is Some
                &&& days_after(latest(played_days(match_scores@)), CHART_MARGIN_DAYS) is Some
                &&& is_win_chart(
                    *match_information,
                    match_scores@,
                    days_before(earliest(played_days(match_scores@)), CHART_MARGIN_DAYS)->Some_0,
                    days_after(latest(played_days(match_scores@)), CHART_MARGIN_DAYS)->Some_0,
                    id_written(match_information.id),
                    chart,
                )
            },
            None => {
                ||| match_scores@.len() == 0
                ||| days_before(earliest(played_days(match_scores@)), CHART_MARGIN_DAYS) is None
                ||| days_after(latest(played_days(match_scores@)), CHART_MARGIN_DAYS) is None
            },
        },
{
    if match_scores.0.len() == 0 {
        return None;
    }
    let (start, end) = day_range(match_scores);
    let first_day = match sub_days(start, CHART_MARGIN_DAYS) {
        Some(day) => day,
        None => {
            return None;
        },
    };
    let last_day = match add_days(end, CHART_MARGIN_DAYS) {
        Some(day) => day,
        None => {
            return None;
        },
    };
    let id = id_text(&match_information.id);
    Some(chart_between(match_information, match_scores, first_day, last_day, id.as_str()))
}

} // verus!
