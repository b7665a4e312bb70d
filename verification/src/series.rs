//! The win series of a matchup: for each player, the days of that player's
//! wins in calendar order, each with the number of wins up to and including
//! it.

use vstd::prelude::*;
use vstd::relations::{sorted_by, total_ordering};
use vstd::seq_lib::{lemma_sorted_unique, to_multiset_build, to_multiset_insert, to_multiset_len};
use uuid::Uuid;
use crate::date::{date_le, Date};

verus! {

/// A game as it was recorded.
#[derive(Clone, Debug)]
pub struct MatchScore {
    pub match_id: Uuid,
    pub game_id: Uuid,
    pub winner: String,
    pub played_at: Date,
    pub winner_score: i16,
    pub loser_score: i16,
}

/// What a `MatchScore` stands for.
pub struct PlayedGame {
    pub match_id: Uuid,
    pub game_id: Uuid,
    pub winner: Seq<char>,
    pub played_at: Date,
    pub winner_score: i16,
    pub loser_score: i16,
}

impl View for MatchScore {
    type V = PlayedGame;

    open spec fn view(&self) -> PlayedGame {
        PlayedGame {
            match_id: self.match_id,
            game_id: self.game_id,
            winner: self.winner@,
            played_at: self.played_at,
            winner_score: self.winner_score,
            loser_score: self.loser_score,
        }
    }
}

/// The recorded games of one matchup, in the order in which they were
/// fetched.
#[derive(Clone, Debug)]
pub struct ScoreHistory(pub Vec<MatchScore>);

impl View for ScoreHistory {
    type V = Seq<PlayedGame>;

    open spec fn view(&self) -> Seq<PlayedGame> {
        self.0@.map_values(|g: MatchScore| g@)
    }
}

/// The days on which `player` won, in the order of `games`.
pub open spec fn win_dates(games: Seq<PlayedGame>, player: Seq<char>) -> Seq<Date>
    decreases games.len(),
{
    if games.len() == 0 {
        Seq::empty()
    } else if games.last().winner == player {
        win_dates(games.drop_last(), player).push(games.last().played_at)
    } else {
        win_dates(games.drop_last(), player)
    }
}

/// The calendar order on days.
pub open spec fn date_order() -> spec_fn(Date, Date) -> bool {
    |a: Date, b: Date| date_le(a, b)
}

/// The days of a series, without the counts.
pub open spec fn series_dates(series: Seq<(Date, i32)>) -> Seq<Date> {
    series.map_values(|point: (Date, i32)| point.0)
}

/// Whether `series` is the win series of `player` over `games`: its days
/// are the days of the player's wins, each as often as the player won on
/// it, in calendar order; and point `i` counts `i + 1` wins.
pub open spec fn is_win_series(
    games: Seq<PlayedGame>,
    player: Seq<char>,
    series: Seq<(Date, i32)>,
) -> bool {
    &&& sorted_by(series_dates(series), date_order())
    &&& series_dates(series).to_multiset() == win_dates(games, player).to_multiset()
    &&& forall|i: int| 0 <= i < series.len() ==> (#[trigger] series[i]).1 == i + 1
}

/// The calendar order is a total order.
pub proof fn lemma_date_order_total()
    ensures
        total_ordering(date_order()),
{
    let r = date_order();
    assert forall|a: Date, b: Date| #[trigger] r(a, b) && #[trigger] r(b, a) implies a == b by {
        assert(a.year == b.year && a.month == b.month && a.day == b.day);
    }
}

/// Copies of `dates` in calendar order.
pub fn sort_dates(dates: &Vec<Date>) -> (sorted: Vec<Date>)
    ensures
        sorted_by(sorted@, date_order()),
        sorted@.to_multiset() == dates@.to_multiset(),
        sorted.len() == dates.len(),
{
    let mut sorted: Vec<Date> = Vec::new();
    let mut i: usize = 0;
    assert(dates@.take(0) == Seq::<Date>::empty());
    while i < dates.len()
        invariant
            i <= dates.len(),
            sorted.len() == i,
            sorted_by(sorted@, date_order()),
            sorted@.to_multiset() == dates@.take(i as int).to_multiset(),
        decreases dates.len() - i,
    {
        let d = dates[i];
        let mut pos: usize = sorted.len();
        while pos > 0 && !sorted[pos - 1].is_on_or_before(&d)
            invariant
                pos <= sorted.len(),
                forall|k: int| pos <= k < sorted.len() ==> !date_le(#[trigger] sorted@[k], d),
            decreases pos,
        {
            pos -= 1;
        }
        let ghost before = sorted@;
        sorted.insert(pos, d);
        proof {
            to_multiset_insert(before, pos as int, d);
            assert(dates@.take(i + 1) == dates@.take(i as int).push(d));
            to_multiset_build(dates@.take(i as int), d);
            let r = date_order();
            assert forall|a: int, b: int| 0 <= a < b < sorted@.len() implies #[trigger] r(
                sorted@[a],
                sorted@[b],
            ) by {
                if b < pos {
                    assert(r(before[a], before[b]));
                } else if b == pos {
                    if pos > 0 {
                        assert(date_le(before[pos - 1], d));
                        if a < pos - 1 {
                            assert(r(before[a], before[pos - 1]));
                        }
                    }
                } else if a < pos {
                    assert(r(before[a], before[b - 1]));
                } else if a == pos {
                    assert(!date_le(before[b - 1], d));
                } else {
                    assert(r(before[a - 1], before[b - 1]));
                }
            }
        }
        i += 1;
    }
    assert(dates@.take(dates.len() as int) == dates@);
    sorted
}

impl ScoreHistory {
    /// The win series of `player`: one point for each game that the player
    /// won, in calendar order, with the running number of wins.
    pub fn win_series(&self, player: &String) -> (series: Vec<(Date, i32)>)
        requires
            self@.len() <= i32::MAX,
        ensures
            is_win_series(self@, player@, series@),
    {
        let mut dates: Vec<Date> = Vec::new();
        let mut i: usize = 0;
        assert(self@.take(0) == Seq::<PlayedGame>::empty());
        while i < self.0.len()
            invariant
                i <= self.0.len(),
                dates.len() <= i,
                dates@ == win_dates(self@.take(i as int), player@),
            decreases self.0.len() - i,
        {
            proof {
                let taken = self@.take(i + 1);
                assert(taken.drop_last() == self@.take(i as int));
                assert(taken.last() == self.0[i as int]@);
            }
            if self.0[i].winner == *player {
                dates.push(self.0[i].played_at);
            }
            i += 1;
        }
        assert(self@.take(self.0.len() as int) == self@);
        let sorted = sort_dates(&dates);
        let mut series: Vec<(Date, i32)> = Vec::new();
        let mut k: usize = 0;
        while k < sorted.len()
            invariant
                k <= sorted.len(),
                sorted.len() <= i32::MAX,
                series.len() == k,
                forall|j: int| 0 <= j < k ==> (#[trigger] series@[j]) == (sorted@[j], (j + 1) as i32),
            decreases sorted.len() - k,
        {
            series.push((sorted[k], (k + 1) as i32));
            k += 1;
        }
        assert(series_dates(series@) == sorted@);
        series
    }
}

/// The win series of one player, under the player's name.
#[derive(Clone, Debug)]
pub struct PlayerWins {
    pub player: String,
    pub wins: Vec<(Date, i32)>,
}

/// The winners of `games`, game by game.
pub open spec fn winners(games: Seq<PlayedGame>) -> Seq<Seq<char>> {
    games.map_values(|g: PlayedGame| g.winner)
}

/// The names in `names` without repetitions, each where it first occurs.
pub open spec fn distinct(names: Seq<Seq<char>>) -> Seq<Seq<char>>
    decreases names.len(),
{
    if names.len() == 0 {
        Seq::empty()
    } else if distinct(names.drop_last()).contains(names.last()) {
        distinct(names.drop_last())
    } else {
        distinct(names.drop_last()).push(names.last())
    }
}

/// The views of the strings in `names`.
pub open spec fn names_of(names: Seq<String>) -> Seq<Seq<char>> {
    names.map_values(|s: String| s@)
}

/// The names that the series in `table` stand under.
pub open spec fn table_names(table: Seq<PlayerWins>) -> Seq<Seq<char>> {
    table.map_values(|row: PlayerWins| row.player@)
}

/// `distinct` keeps exactly the names that occur.
pub proof fn lemma_distinct_contains(names: Seq<Seq<char>>, name: Seq<char>)
    ensures
        distinct(names).contains(name) <==> names.contains(name),
    decreases names.len(),
{
    if names.len() > 0 {
        let front = names.drop_last();
        lemma_distinct_contains(front, name);
        lemma_distinct_contains(front, names.last());
        if names.contains(name) {
            let i = choose|i: int| 0 <= i < names.len() && names[i] == name;
            if i < names.len() - 1 {
                assert(front[i] == name);
            }
        }
        if distinct(front).contains(name) {
            let i = choose|i: int| 0 <= i < front.len() && front[i] == name;
            assert(names[i] == name);
        }
        if !distinct(front).contains(names.last()) {
            let d = distinct(front);
            assert(d.push(names.last())[d.len() as int] == names.last());
            if d.contains(name) {
                let i = choose|i: int| 0 <= i < d.len() && d[i] == name;
                assert(d.push(names.last())[i] == name);
            }
            if name == names.last() {
                assert(names[names.len() - 1] == name);
            }
        }
    }
}

/// A player who won no game has no win days.
pub proof fn lemma_no_wins(games: Seq<PlayedGame>, player: Seq<char>)
    requires
        !winners(games).contains(player),
    ensures
        win_dates(games, player).len() == 0,
    decreases games.len(),
{
    if games.len() > 0 {
        let front = games.drop_last();
        assert(winners(games)[games.len() - 1] == games.last().winner);
        assert(!winners(front).contains(player)) by {
            if winners(front).contains(player) {
                let i = choose|i: int| 0 <= i < front.len() && winners(front)[i] == player;
                assert(winners(games)[i] == player);
            }
        }
        lemma_no_wins(front, player);
    }
}

/// Whether `names` holds `name`.
fn contains_name(names: &Vec<String>, name: &String) -> (found: bool)
    ensures
        found == names_of(names@).contains(name@),
{
    let mut j: usize = 0;
    while j < names.len()
        invariant
            j <= names.len(),
            forall|k: int| 0 <= k < j ==> names_of(names@)[k] != name@,
        decreases names.len() - j,
    {
        if names[j] == *name {
            assert(names_of(names@)[j as int] == name@);
            return true;
        }
        j += 1;
    }
    false
}

/// A copy of `wins`.
fn copy_series(wins: &Vec<(Date, i32)>) -> (copy: Vec<(Date, i32)>)
    ensures
        copy@ == wins@,
{
    let mut copy: Vec<(Date, i32)> = Vec::new();
    let mut i: usize = 0;
    while i < wins.len()
        invariant
            i <= wins.len(),
            copy@ == wins@.take(i as int),
        decreases wins.len() - i,
    {
        copy.push(wins[i]);
        assert(wins@.take(i + 1) == wins@.take(i as int).push(wins@[i as int]));
        i += 1;
    }
    assert(wins@.take(wins.len() as int) == wins@);
    copy
}

impl ScoreHistory {
    /// The players who won at least one game, each once, in the order in
    /// which they first occur.
    pub fn players(&self) -> (players: Vec<String>)
        ensures
            names_of(players@) == distinct(winners(self@)),
    {
        let mut players: Vec<String> = Vec::new();
        let mut i: usize = 0;
        assert(winners(self@.take(0)) == Seq::<Seq<char>>::empty());
        while i < self.0.len()
            invariant
                i <= self.0.len(),
                names_of(players@) == distinct(winners(self@.take(i as int))),
            decreases self.0.len() - i,
        {
            proof {
                let taken = winners(self@.take(i + 1));
                assert(taken.drop_last() == winners(self@.take(i as int)));
                assert(taken.last() == self.0[i as int].winner@);
            }
            if !contains_name(&players, &self.0[i].winner) {
                let ghost before = players@;
                let name = self.0[i].winner.clone();
                players.push(name);
                assert(names_of(players@) == names_of(before).push(name@));
            }
            i += 1;
        }
        assert(self@.take(self.0.len() as int) == self@);
        players
    }

    /// The win series of every player who won at least one game, in the
    /// order of `players`.
    pub fn cumm_sum_wins(&self) -> (table: Vec<PlayerWins>)
        requires
            self@.len() <= i32::MAX,
        ensures
            table_names(table@) == distinct(winners(self@)),
            forall|k: int|
                0 <= k < table.len() ==> is_win_series(
                    self@,
                    (#[trigger] table[k]).player@,
                    table[k].wins@,
                ),
    {
        let players = self.players();
        let mut table: Vec<PlayerWins> = Vec::new();
        let mut k: usize = 0;
        while k < players.len()
            invariant
                self@.len() <= i32::MAX,
                k <= players.len(),
                table.len() == k,
                forall|j: int| 0 <= j < k ==> (#[trigger] table[j]).player@ == players[j]@,
                forall|j: int|
                    0 <= j < k ==> is_win_series(
                        self@,
                        (#[trigger] table[j]).player@,
                        table[j].wins@,
                    ),
            decreases players.len() - k,
        {
            let wins = self.win_series(&players[k]);
            table.push(PlayerWins { player: players[k].clone(), wins });
            k += 1;
        }
        assert(table_names(table@) == names_of(players@));
        table
    }
}

/// Whether row `k` is the first row of `table` under the name `player`.
pub open spec fn is_first_row_of(table: Seq<PlayerWins>, player: Seq<char>, k: int) -> bool {
    &&& 0 <= k < table.len()
    &&& table[k].player@ == player
    &&& forall|j: int| 0 <= j < k ==> (#[trigger] table[j]).player@ != player
}

/// The series that `table` holds for `player`: that of the first row under
/// the player's name, or the empty series where there is no such row.
pub fn wins_of(table: &Vec<PlayerWins>, player: &String) -> (wins: Vec<(Date, i32)>)
    ensures
        table_names(table@).contains(player@) ==> exists|k: int|
            #[trigger] is_first_row_of(table@, player@, k) && wins@ == table[k].wins@,
        !table_names(table@).contains(player@) ==> wins@.len() == 0,
{
    let mut k: usize = 0;
    while k < table.len()
        invariant
            k <= table.len(),
            forall|j: int| 0 <= j < k ==> (#[trigger] table[j]).player@ != player@,
        decreases table.len() - k,
    {
        if table[k].player == *player {
            assert(is_first_row_of(table@, player@, k as int));
            assert(table_names(table@)[k as int] == player@);
            return copy_series(&table[k].wins);
        }
        k += 1;
    }
    assert(!table_names(table@).contains(player@)) by {
        if table_names(table@).contains(player@) {
            let i = choose|i: int| 0 <= i < table.len() && table_names(table@)[i] == player@;
            assert(table[i].player@ == player@);
        }
    }
    Vec::new()
}

/// Looking a player up in the table of all series gives that player's win
/// series, also for a player who never won: the empty series.
pub proof fn lemma_table_lookup(
    games: Seq<PlayedGame>,
    table: Seq<PlayerWins>,
    player: Seq<char>,
    wins: Seq<(Date, i32)>,
)
    requires
        table_names(table) == distinct(winners(games)),
        forall|k: int|
            0 <= k < table.len() ==> is_win_series(
                games,
                (#[trigger] table[k]).player@,
                table[k].wins@,
            ),
        table_names(table).contains(player) ==> exists|k: int|
            #[trigger] is_first_row_of(table, player, k) && wins == table[k].wins@,
        !table_names(table).contains(player) ==> wins.len() == 0,
    ensures
        is_win_series(games, player, wins),
{
    if !table_names(table).contains(player) {
        lemma_distinct_contains(winners(games), player);
        lemma_no_wins(games, player);
        assert(series_dates(wins) == win_dates(games, player));
    }
}

/// In a win series the counts are 1, 2, 3 and so on, and no day comes
/// before an earlier point's day.
pub proof fn lemma_series_is_ordered(
    games: Seq<PlayedGame>,
    player: Seq<char>,
    series: Seq<(Date, i32)>,
)
    requires
        is_win_series(games, player, series),
    ensures
        forall|i: int, j: int|
            0 <= i < j < series.len() ==> (#[trigger] series[i]).1 < (#[trigger] series[j]).1
                && date_le(series[i].0, series[j].0),
        series.len() > 0 ==> series.last().1 == series.len(),
        series.len() == win_dates(games, player).len(),
{
    let r = date_order();
    let dates = series_dates(series);
    assert forall|i: int, j: int| 0 <= i < j < series.len() implies (#[trigger] series[i]).1 < (
    #[trigger] series[j]).1 && date_le(series[i].0, series[j].0) by {
        assert(r(dates[i], dates[j]));
    }
    to_multiset_len(dates);
    to_multiset_len(win_dates(games, player));
}

/// Where a player never won twice on one day, the days of the player's win
/// series are all different, so each point's day is later than the one
/// before.
pub proof fn lemma_series_days_increase(
    games: Seq<PlayedGame>,
    player: Seq<char>,
    series: Seq<(Date, i32)>,
)
    requires
        is_win_series(games, player, series),
        win_dates(games, player).no_duplicates(),
    ensures
        forall|i: int, j: int|
            0 <= i < j < series.len() ==> date_le(
                (#[trigger] series[i]).0,
                (#[trigger] series[j]).0,
            ) && series[i].0 != series[j].0,
{
    let dates = series_dates(series);
    win_dates(games, player).lemma_multiset_has_no_duplicates();
    dates.lemma_multiset_has_no_duplicates_conv();
    lemma_series_is_ordered(games, player, series);
    assert forall|i: int, j: int| 0 <= i < j < series.len() implies date_le(
        (#[trigger] series[i]).0,
        (#[trigger] series[j]).0,
    ) && series[i].0 != series[j].0 by {
        assert(dates[i] != dates[j]);
    }
}

/// A player who won no game has the empty win series.
pub proof fn lemma_series_without_wins(
    games: Seq<PlayedGame>,
    player: Seq<char>,
    series: Seq<(Date, i32)>,
)
    requires
        is_win_series(games, player, series),
        forall|i: int| 0 <= i < games.len() ==> (#[trigger] games[i]).winner != player,
    ensures
        series.len() == 0,
{
    assert(!winners(games).contains(player)) by {
        if winners(games).contains(player) {
            let i = choose|i: int| 0 <= i < games.len() && winners(games)[i] == player;
            assert(games[i].winner == player);
        }
    }
    lemma_no_wins(games, player);
    lemma_series_is_ordered(games, player, series);
}

/// Where every game was won by one of two different players, the wins of
/// the two add up to the number of games.
pub proof fn lemma_wins_add_up(games: Seq<PlayedGame>, first: Seq<char>, second: Seq<char>)
    requires
        first != second,
        forall|i: int|
            0 <= i < games.len() ==> (#[trigger] games[i]).winner == first || games[i].winner
                == second,
    ensures
        win_dates(games, first).len() + win_dates(games, second).len() == games.len(),
    decreases games.len(),
{
    if games.len() > 0 {
        let front = games.drop_last();
        assert forall|i: int| 0 <= i < front.len() implies (#[trigger] front[i]).winner == first
            || front[i].winner == second by {
            assert(front[i] == games[i]);
        }
        assert(games.last() == games[games.len() - 1]);
        lemma_wins_add_up(front, first, second);
    }
}

/// Where every game was won by one of two different players, the two win
/// series together have one point for each game, so their last counts add
/// up to the number of games.
pub proof fn lemma_series_add_up(
    games: Seq<PlayedGame>,
    first: Seq<char>,
    second: Seq<char>,
    first_series: Seq<(Date, i32)>,
    second_series: Seq<(Date, i32)>,
)
    requires
        first != second,
        forall|i: int|
            0 <= i < games.len() ==> (#[trigger] games[i]).winner == first || games[i].winner
                == second,
        is_win_series(games, first, first_series),
        is_win_series(games, second, second_series),
    ensures
        first_series.len() + second_series.len() == games.len(),
        first_series.len() > 0 ==> first_series.last().1 == first_series.len(),
        second_series.len() > 0 ==> second_series.last().1 == second_series.len(),
{
    lemma_wins_add_up(games, first, second);
    lemma_series_is_ordered(games, first, first_series);
    lemma_series_is_ordered(games, second, second_series);
}

/// The win series is determined by the games and the player: whatever meets
/// its description is the same series. So asking twice for the series of
/// one history gives the same answer.
pub proof fn lemma_series_is_unique(
    games: Seq<PlayedGame>,
    player: Seq<char>,
    one: Seq<(Date, i32)>,
    other: Seq<(Date, i32)>,
)
    requires
        is_win_series(games, player, one),
        is_win_series(games, player, other),
    ensures
        one == other,
{
    lemma_date_order_total();
    lemma_sorted_unique(series_dates(one), series_dates(other), date_order());
    assert(one.len() == other.len());
    assert forall|i: int| 0 <= i < one.len() implies one[i] == other[i] by {
        assert(series_dates(one)[i] == series_dates(other)[i]);
        assert(one[i].1 == other[i].1);
    }
    assert(one =~= other);
}

} // verus!
