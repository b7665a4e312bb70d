//! Rows for storing an accepted batch. The batch is laid out column by
//! column, so that all of its rows can be written by one insert statement
//! and are stored together or not at all.

use vstd::prelude::*;
use chrono::{NaiveDateTime, Utc};
use uuid::Uuid;
use crate::batch::MatchScores;
use crate::date::Date;
use crate::entry::ScoreEntry;
use crate::ids::new_game_id;

verus! {

/// `chrono::NaiveDateTime`, declared without its contents: the time at
/// which a row was made is carried along, never looked into.
#[verifier::external_type_specification]
#[verifier::external_body]
pub struct ExNaiveDateTime(NaiveDateTime);

/// Reads the clock with chrono's `Utc::now` and drops the time zone. The
/// result depends on when it is called, so nothing is promised of it. The
/// call fails only where the machine's clock stands before 1970, which no
/// argument could prevent.
#[verifier::external_body]
fn now_utc() -> NaiveDateTime {
    Utc::now().naive_utc()
}

/// The columns of the rows to insert. Row `i` is made of the `i`-th element
/// of each column.
#[derive(Clone, Debug)]
pub struct ScoreColumns {
    pub matchup_ids: Vec<Uuid>,
    pub game_ids: Vec<Uuid>,
    pub winner_initials: Vec<String>,
    pub winner_scores: Vec<i16>,
    pub loser_scores: Vec<i16>,
    pub created_at: Vec<NaiveDateTime>,
    pub played_at: Vec<Date>,
}

impl ScoreColumns {
    /// Number of rows.
    pub open spec fn rows(&self) -> nat {
        self.matchup_ids@.len()
    }

    /// Every column has one element for each row.
    pub open spec fn wf(&self) -> bool {
        &&& self.game_ids@.len() == self.rows()
        &&& self.winner_initials@.len() == self.rows()
        &&& self.winner_scores@.len() == self.rows()
        &&& self.loser_scores@.len() == self.rows()
        &&& self.created_at@.len() == self.rows()
        &&& self.played_at@.len() == self.rows()
    }

    /// Whether row `i` stores `entry`: matchup, winner, both counts and the
    /// day of the game are the entry's own.
    pub open spec fn row_stores(&self, i: int, entry: ScoreEntry) -> bool {
        &&& self.matchup_ids@[i] == entry.matchup_id
        &&& self.winner_initials@[i]@ == entry.winner
        &&& self.winner_scores@[i] == entry.score.winner_score
        &&& self.loser_scores@[i] == entry.score.loser_score
        &&& self.played_at@[i] == entry.played_at
    }

    /// Lays out the batch for storing: one row for each entry, in the order
    /// of the batch, with the entry's values unchanged. There is at least
    /// one row, and every row is for the batch's matchup and names one of
    /// its players as the winner. Each row gets a game identifier drawn for
    /// it and the time at which the row was made.
    pub fn new(scores: MatchScores) -> (columns: ScoreColumns)
        ensures
            columns.wf(),
            columns.rows() == scores@.len(),
            columns.rows() >= 1,
            forall|i: int| 0 <= i < scores@.len() ==> columns.row_stores(i, #[trigger] scores@[i]),
            forall|i: int|
                0 <= i < columns.rows() ==> {
                    &&& (#[trigger] columns.matchup_ids@[i]) == scores.matchup().id
                    &&& scores.matchup().has_player(columns.winner_initials@[i]@)
                    &&& 0 <= columns.loser_scores@[i] <= columns.winner_scores@[i]
                },
    {
        let rows = scores.into_entries();
        let n = rows.len();
        let mut columns = ScoreColumns {
            matchup_ids: Vec::with_capacity(n),
            game_ids: Vec::with_capacity(n),
            winner_initials: Vec::with_capacity(n),
            winner_scores: Vec::with_capacity(n),
            loser_scores: Vec::with_capacity(n),
            created_at: Vec::with_capacity(n),
            played_at: Vec::with_capacity(n),
        };
        let mut i: usize = 0;
        while i < n
            invariant
                n == rows.len(),
                i <= n,
                columns.wf(),
                columns.rows() == i,
                forall|j: int| 0 <= j < i ==> columns.row_stores(j, (#[trigger] rows@[j])@),
            decreases n - i,
        {
            columns.matchup_ids.push(rows[i].matchup_id);
            columns.winner_initials.push(rows[i].winner_initials.clone());
            columns.winner_scores.push(rows[i].score.winner_score);
            columns.loser_scores.push(rows[i].score.loser_score);
            columns.played_at.push(rows[i].played_at);
            columns.created_at.push(now_utc());
            columns.game_ids.push(new_game_id());
            i += 1;
        }
        assert forall|i: int| 0 <= i < scores@.len() implies columns.row_stores(
            i,
            #[trigger] scores@[i],
        ) by {
            assert(scores@[i] == rows@[i]@);
        }
        assert forall|i: int| 0 <= i < columns.rows() implies {
            &&& (#[trigger] columns.matchup_ids@[i]) == scores.matchup().id
            &&& scores.matchup().has_player(columns.winner_initials@[i]@)
            &&& 0 <= columns.loser_scores@[i] <= columns.winner_scores@[i]
        } by {
            assert(columns.row_stores(i, scores@[i]));
            assert(scores@[i].score.wf());
        }
        columns
    }
}

} // verus!
