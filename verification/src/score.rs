//! The score of one game: the winner's count first, the loser's second.

use vstd::prelude::*;
use vstd::string::StringExecFns;
use crate::text::{
    all_digits, count_of, count_text, cut_at, holds_no, integer_text, is_digit,
    lemma_count_round_trip,
    lemma_split_once_joined, read_count, split_once,
};

verus! {

/// The two counts of a game, ordered by size.
#[derive(Clone, Copy, Debug, PartialEq, Eq, Structural)]
pub struct Score {
    pub winner_score: i16,
    pub loser_score: i16,
}

/// The score made of the counts `a` and `b`, whichever way round they were
/// written: the larger is the winner's.
pub open spec fn normalized(a: i16, b: i16) -> Score {
    if a >= b {
        Score { winner_score: a, loser_score: b }
    } else {
        Score { winner_score: b, loser_score: a }
    }
}

/// The score that `s` writes: two counts with one colon between them.
/// `None` for every other text.
pub open spec fn score_of_text(s: Seq<char>) -> Option<Score> {
    match split_once(s, ':') {
        Some((left, right)) => match (count_of(left), count_of(right)) {
            (Some(a), Some(b)) => Some(normalized(a, b)),
            _ => None,
        },
        None => None,
    }
}

/// The text that writes `score`: the winner's count, a colon, the loser's
/// count.
pub open spec fn score_text(score: Score) -> Seq<char> {
    integer_text(score.winner_score as int) + seq![':'] + integer_text(score.loser_score as int)
}

impl Score {
    /// Neither count is negative, and the winner's is not the smaller.
    pub open spec fn wf(self) -> bool {
        0 <= self.loser_score <= self.winner_score
    }

    /// Reads a score written as `W:L` or `L:W`.
    pub fn parse(text: &str) -> (res: Option<Score>)
        ensures
            res == score_of_text(text@),
            res matches Some(score) ==> score.wf(),
    {
        match cut_at(text, ':') {
            Some((left, right)) => {
                let a = read_count(left);
                let b = read_count(right);
                match (a, b) {
                    (Some(a), Some(b)) => {
                        if a >= b {
                            Some(Score { winner_score: a, loser_score: b })
                        } else {
                            Some(Score { winner_score: b, loser_score: a })
                        }
                    },
                    _ => None,
                }
            },
            None => None,
        }
    }

    /// Writes the score as `W:L`, the winner's count first.
    pub fn to_text(&self) -> (res: String)
        ensures
            res@ == score_text(*self),
    {
        proof {
            reveal_strlit(":");
        }
        let res = count_text(self.winner_score).concat(":").concat(
            count_text(self.loser_score).as_str(),
        );
        assert(":"@ =~= seq![':']);
        res
    }

    /// Whether both sides have the same count. Such a score is accepted: a
    /// tie names no winner by itself, the entry's winner field does.
    pub fn is_tie(&self) -> (b: bool)
        ensures
            b == (self.winner_score == self.loser_score),
    {
        self.winner_score == self.loser_score
    }
}

/// A text that writes a count holds no colon.
pub proof fn lemma_count_has_no_colon(s: Seq<char>)
    requires
        count_of(s) is Some,
    ensures
        holds_no(s, ':'),
{
    assert forall|i: int| 0 <= i < s.len() implies #[trigger] s[i] != ':' by {
        let signed = s[0] == '-' || s[0] == '+';
        if signed && i > 0 {
            assert(all_digits(s.skip(1)));
            assert(is_digit(s.skip(1)[i - 1]));
        } else if !signed {
            assert(is_digit(s[i]));
        }
    }
}

/// Reading a score puts the larger count first, whichever way round the
/// two were written: of `left:right` the score is the larger of the two
/// counts for the winner and the smaller for the loser.
pub proof fn lemma_parse_normalizes(left: Seq<char>, right: Seq<char>, a: i16, b: i16)
    requires
        count_of(left) == Some(a),
        count_of(right) == Some(b),
    ensures
        score_of_text(left + seq![':'] + right) == Some(normalized(a, b)),
        normalized(a, b).winner_score == if a >= b {
            a
        } else {
            b
        },
        normalized(a, b).loser_score == if a >= b {
            b
        } else {
            a
        },
        normalized(a, b) == normalized(b, a),
        normalized(a, b).wf(),
{
    lemma_count_has_no_colon(left);
    lemma_split_once_joined(left, ':', right);
}

/// Writing a score and reading it again gives the score back; and writing
/// what was read of `left:right` gives the larger count, a colon, and the
/// smaller count.
pub proof fn lemma_score_round_trip(score: Score)
    requires
        score.wf(),
    ensures
        score_of_text(score_text(score)) == Some(score),
{
    lemma_count_round_trip(score.winner_score);
    lemma_count_round_trip(score.loser_score);
    lemma_parse_normalizes(
        integer_text(score.winner_score as int),
        integer_text(score.loser_score as int),
        score.winner_score,
        score.loser_score,
    );
}

} // verus!
