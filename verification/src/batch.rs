//! Batches of game results: reading a block of lines, and accepting the
//! entries for a matchup only if every winner plays in it.

use vstd::prelude::*;
use uuid::Uuid;
use crate::entry::{entry_of_line, lemma_entry_line_ends_in_digit, MatchScoreInput, ScoreEntry};
use crate::error::{BatchParseError, Fault, ParseError, ValidationError};
use crate::ids::same_id;
use crate::text::{
    first_where, holds_no, is_plain_line, joined, lemma_first_where, lemma_first_where_is,
    lemma_lines_of_joined, lemma_lines_of_joined_any, lemma_read_back_at, lines_of, read_back,
    split_lines, strip_cr, views_of,
};

verus! {

/// A matchup: two players who record games against each other.
#[derive(Clone, Debug)]
pub struct MatchInfo {
    pub id: Uuid,
    pub player_1: String,
    pub player_2: String,
}

/// Entries that were accepted together for one matchup: at least one, each
/// for that matchup, won by one of its two players, with its larger count
/// first.
#[derive(Debug)]
pub struct MatchScores {
    entries: Vec<MatchScoreInput>,
    matchup: MatchInfo,
}

/// What the entries in `entries` stand for, in the same order.
pub open spec fn entry_views(entries: Seq<MatchScoreInput>) -> Seq<ScoreEntry> {
    entries.map_values(|e: MatchScoreInput| e@)
}

/// The test for a line that is not a score entry.
pub open spec fn fails_to_parse(matchup_id: Uuid) -> spec_fn(Seq<char>) -> bool {
    |line: Seq<char>| entry_of_line(matchup_id, line) is Err
}

/// What a block of lines is read as: the entries of its lines in order, or
/// the first line that is not an entry, with its error. A block without
/// lines is an error too, reported on line 0.
pub open spec fn entries_of_lines(matchup_id: Uuid, lines: Seq<Seq<char>>) -> Result<
    Seq<ScoreEntry>,
    BatchParseError,
> {
    let k = first_where(lines, fails_to_parse(matchup_id));
    if lines.len() == 0 {
        Err(BatchParseError { line: 0, error: ParseError::EmptyBatch })
    } else if k < lines.len() {
        Err(
            BatchParseError {
                line: k as usize,
                error: entry_of_line(matchup_id, lines[k as int])->Err_0,
            },
        )
    } else {
        Ok(lines.map_values(|line: Seq<char>| entry_of_line(matchup_id, line)->Ok_0))
    }
}

/// What a block of text is read as: see `entries_of_lines`.
pub open spec fn entries_of_text(matchup_id: Uuid, text: Seq<char>) -> Result<
    Seq<ScoreEntry>,
    BatchParseError,
> {
    entries_of_lines(matchup_id, lines_of(text))
}

/// The outcome of reading a batch, with the entries replaced by what they
/// stand for.
pub open spec fn batch_view(res: Result<Vec<MatchScoreInput>, BatchParseError>) -> Result<
    Seq<ScoreEntry>,
    BatchParseError,
> {
    match res {
        Ok(entries) => Ok(entry_views(entries@)),
        Err(e) => Err(e),
    }
}

/// Reads a block of score lines for the matchup `matchup_id`. Either every
/// line is an entry and all are returned in the order of the lines, or the
/// first line that fails is reported and no entry is returned.
///
/// A line ends at a line feed, with or without a carriage return before
/// it. A line break at the end of the text ends the last line and opens no
/// further one: `"a\nb\n"` has the two lines of `"a\nb"`, and the empty
/// text has none. A break that follows a break does enclose an empty
/// line, which is no entry.
pub fn parse_match_scores(matchup_id: Uuid, raw_match_scores: &str) -> (res: Result<
    Vec<MatchScoreInput>,
    BatchParseError,
>)
    ensures
        batch_view(res) == entries_of_text(matchup_id, raw_match_scores@),
        res matches Ok(entries) ==> forall|i: int|
            0 <= i < entries.len() ==> (#[trigger] entries[i]).score.wf(),
{
    let elements = split_lines(raw_match_scores);
    let ghost lines = lines_of(raw_match_scores@);
    let ghost bad = fails_to_parse(matchup_id);
    if elements.len() == 0 {
        return Err(BatchParseError { line: 0, error: ParseError::EmptyBatch });
    }
    let mut parsed_elements: Vec<MatchScoreInput> = Vec::new();
    let mut i: usize = 0;
    while i < elements.len()
        invariant
            lines == lines_of(raw_match_scores@),
            bad == fails_to_parse(matchup_id),
            views_of(elements@) == lines,
            i <= elements.len(),
            parsed_elements.len() == i,
            forall|j: int|
                0 <= j < i ==> entry_of_line(matchup_id, #[trigger] lines[j]) == Ok::<
                    ScoreEntry,
                    ParseError,
                >(parsed_elements[j]@),
            forall|j: int| 0 <= j < i ==> (#[trigger] parsed_elements[j]).score.wf(),
        decreases elements.len() - i,
    {
        assert(lines[i as int] == elements[i as int]@);
        match MatchScoreInput::new_from_str(matchup_id, elements[i]) {
            Ok(entry) => {
                parsed_elements.push(entry);
            },
            Err(error) => {
                proof {
                    assert(bad(lines[i as int]));
                    lemma_first_where_is(lines, bad, i as int);
                }
                return Err(BatchParseError { line: i, error });
            },
        }
        i += 1;
    }
    proof {
        lemma_first_where_is(lines, bad, lines.len() as int);
        assert(entry_views(parsed_elements@) =~= lines.map_values(
            |line: Seq<char>| entry_of_line(matchup_id, line)->Ok_0,
        ));
    }
    Ok(parsed_elements)
}

/// The empty text is no batch.
pub proof fn lemma_empty_text_is_no_batch(matchup_id: Uuid)
    ensures
        entries_of_text(matchup_id, Seq::empty()) == Err::<Seq<ScoreEntry>, BatchParseError>(
            BatchParseError { line: 0, error: ParseError::EmptyBatch },
        ),
{
}

/// A block of lines that are all entries is read as those entries, one for
/// each line and in the order of the lines.
pub proof fn lemma_entries_keep_order(matchup_id: Uuid, lines: Seq<Seq<char>>)
    requires
        lines.len() > 0,
        forall|i: int| 0 <= i < lines.len() ==> entry_of_line(matchup_id, #[trigger] lines[i]) is Ok,
    ensures
        entries_of_lines(matchup_id, lines) is Ok,
        entries_of_lines(matchup_id, lines)->Ok_0.len() == lines.len(),
        forall|i: int|
            0 <= i < lines.len() ==> entry_of_line(matchup_id, #[trigger] lines[i]) == Ok::<
                ScoreEntry,
                ParseError,
            >(entries_of_lines(matchup_id, lines)->Ok_0[i]),
{
    lemma_first_where_is(lines, fails_to_parse(matchup_id), lines.len() as int);
}

/// A text of lines that are all entries, with a line feed between any two
/// of them, is read as those entries: as many as there are lines, and in
/// the order of the lines.
pub proof fn lemma_joined_entries_keep_order(matchup_id: Uuid, lines: Seq<Seq<char>>)
    requires
        lines.len() > 0,
        forall|i: int| 0 <= i < lines.len() ==> entry_of_line(matchup_id, #[trigger] lines[i]) is Ok,
        forall|i: int| 0 <= i < lines.len() ==> holds_no(#[trigger] lines[i], '\n'),
    ensures
        entries_of_text(matchup_id, joined(lines)) is Ok,
        entries_of_text(matchup_id, joined(lines))->Ok_0.len() == lines.len(),
        forall|i: int|
            0 <= i < lines.len() ==> entry_of_line(matchup_id, #[trigger] lines[i]) == Ok::<
                ScoreEntry,
                ParseError,
            >(entries_of_text(matchup_id, joined(lines))->Ok_0[i]),
{
    assert forall|i: int| 0 <= i < lines.len() implies is_plain_line(#[trigger] lines[i]) by {
        lemma_entry_line_ends_in_digit(matchup_id, lines[i]);
    }
    lemma_entry_line_ends_in_digit(matchup_id, lines.last());
    lemma_lines_of_joined(lines);
    lemma_entries_keep_order(matchup_id, lines);
}

/// One line that is not an entry, wherever it stands in the text, makes the
/// whole batch fail: no entry comes out.
pub proof fn lemma_one_bad_line_fails(matchup_id: Uuid, text: Seq<char>, i: int)
    requires
        0 <= i < lines_of(text).len(),
        entry_of_line(matchup_id, lines_of(text)[i]) is Err,
    ensures
        entries_of_text(matchup_id, text) is Err,
{
    let lines = lines_of(text);
    lemma_first_where(lines, fails_to_parse(matchup_id));
    let k = first_where(lines, fails_to_parse(matchup_id)) as int;
    if k >= lines.len() {
        assert(!fails_to_parse(matchup_id)(lines[i]));
    }
}

/// A text of lines with a line feed between any two of them, of which one
/// is not an entry, fails as a whole, wherever that line stands: no entry
/// comes out. The lines hold no line feed. Two lines are left out,
/// because the text does not hold them as they were joined: a line before
/// the last that becomes an entry when the carriage return at its end is
/// taken as part of the line break, and an empty line after the last line
/// feed.
pub proof fn lemma_one_bad_joined_line_fails(matchup_id: Uuid, lines: Seq<Seq<char>>, k: int)
    requires
        0 <= k < lines.len(),
        forall|i: int| 0 <= i < lines.len() ==> holds_no(#[trigger] lines[i], '\n'),
        entry_of_line(matchup_id, lines[k]) is Err,
        k < lines.len() - 1 ==> entry_of_line(matchup_id, strip_cr(lines[k])) is Err,
        k == lines.len() - 1 && lines.len() >= 2 ==> lines[k].len() > 0,
    ensures
        entries_of_text(matchup_id, joined(lines)) is Err,
{
    let text = joined(lines);
    lemma_lines_of_joined_any(lines);
    lemma_read_back_at(lines, k);
    if k == lines.len() - 1 && lines[k].len() == 0 {
        assert(text.len() == 0);
    } else {
        assert(lines_of(text)[k] == read_back(lines)[k]);
        lemma_one_bad_line_fails(matchup_id, text, k);
    }
}

impl MatchInfo {
    /// Whether `name` is one of the two players.
    pub open spec fn has_player(&self, name: Seq<char>) -> bool {
        name == self.player_1@ || name == self.player_2@
    }

    /// The two players are different people.
    pub open spec fn wf(&self) -> bool {
        self.player_1@ != self.player_2@
    }

    /// Whether `player` is one of the two players of the matchup.
    pub fn player_in_match(&self, player: &String) -> (b: bool)
        ensures
            b == self.has_player(player@),
    {
        *player == self.player_1 || *player == self.player_2
    }
}

/// Whether `entries` is a batch for the matchup `info`: it is not empty,
/// and each of its entries is for that matchup, names one of the two
/// players as its winner, and has a score with no negative count and the
/// winner's count not below the loser's.
pub open spec fn is_score_batch(info: MatchInfo, entries: Seq<ScoreEntry>) -> bool {
    &&& entries.len() > 0
    &&& forall|i: int|
        0 <= i < entries.len() ==> {
            &&& (#[trigger] entries[i]).matchup_id == info.id
            &&& info.has_player(entries[i].winner)
            &&& entries[i].score.wf()
        }
}

/// The test for an entry whose winner does not play in `info`.
pub open spec fn is_outsider(info: MatchInfo) -> spec_fn(ScoreEntry) -> bool {
    |entry: ScoreEntry| !info.has_player(entry.winner)
}

/// The test for an entry that is for another matchup than `info`, or whose
/// score is not well formed.
pub open spec fn is_unfit(info: MatchInfo) -> spec_fn(ScoreEntry) -> bool {
    |entry: ScoreEntry| entry.matchup_id != info.id || !entry.score.wf()
}

/// What comes of checking `entries` against `info`. No entries are a fault.
/// So is a winner who is not one of the two players: the first such winner
/// is named, whatever else is wrong. Next comes the first entry that is for
/// another matchup or has a score out of order. Where nothing is wrong all
/// entries are accepted.
pub open spec fn validated(info: MatchInfo, entries: Seq<ScoreEntry>) -> Result<
    Seq<ScoreEntry>,
    Fault,
> {
    let k = first_where(entries, is_outsider(info)) as int;
    let u = first_where(entries, is_unfit(info)) as int;
    if entries.len() == 0 {
        Err(Fault::NoEntries)
    } else if k < entries.len() {
        Err(Fault::PlayerNotInMatch(entries[k].winner))
    } else if u < entries.len() {
        if entries[u].matchup_id != info.id {
            Err(Fault::WrongMatchup)
        } else {
            Err(Fault::ScoreOutOfOrder)
        }
    } else {
        Ok(entries)
    }
}

/// The outcome of a check, with the batch and the error replaced by what
/// they stand for.
pub open spec fn validation_view(res: Result<MatchScores, ValidationError>) -> Result<
    Seq<ScoreEntry>,
    Fault,
> {
    match res {
        Ok(batch) => Ok(batch@),
        Err(e) => Err(e@),
    }
}

impl View for MatchScores {
    type V = Seq<ScoreEntry>;

    closed spec fn view(&self) -> Seq<ScoreEntry> {
        entry_views(self.entries@)
    }
}

impl MatchScores {
    /// Every batch is a batch for its matchup.
    #[verifier::type_invariant]
    spec fn is_batch(self) -> bool {
        is_score_batch(self.matchup, entry_views(self.entries@))
    }

    /// The matchup that the entries were accepted for.
    pub closed spec fn matchup(&self) -> MatchInfo {
        self.matchup
    }

    /// Accepts `match_scores` for the matchup `match_info`: all of them, in
    /// their order, if there is at least one, every winner is one of the
    /// two players, every entry is for this matchup and every score has
    /// its larger count first. Otherwise none is accepted, and the error
    /// says what is wrong: see `validated`.
    pub fn new(match_scores: Vec<MatchScoreInput>, match_info: MatchInfo) -> (res: Result<
        Self,
        ValidationError,
    >)
        ensures
            validation_view(res) == validated(match_info, entry_views(match_scores@)),
            res matches Ok(batch) ==> batch.matchup() == match_info && is_score_batch(
                match_info,
                batch@,
            ),
    {
        let ghost entries = entry_views(match_scores@);
        let ghost outside = is_outsider(match_info);
        let ghost unfit = is_unfit(match_info);
        if match_scores.len() == 0 {
            return Err(ValidationError::NoEntries);
        }
        let mut i: usize = 0;
        while i < match_scores.len()
            invariant
                entries == entry_views(match_scores@),
                outside == is_outsider(match_info),
                i <= match_scores.len(),
                forall|j: int| 0 <= j < i ==> !outside(#[trigger] entries[j]),
            decreases match_scores.len() - i,
        {
            if !match_info.player_in_match(&match_scores[i].winner_initials) {
                let name = match_scores[i].winner_initials.clone();
                proof {
                    assert(outside(entries[i as int]));
                    lemma_first_where_is(entries, outside, i as int);
                }
                return Err(ValidationError::PlayerNotInMatch(name));
            }
            i += 1;
        }
        proof {
            lemma_first_where_is(entries, outside, entries.len() as int);
        }
        let mut i: usize = 0;
        while i < match_scores.len()
            invariant
                entries == entry_views(match_scores@),
                unfit == is_unfit(match_info),
                outside == is_outsider(match_info),
                first_where(entries, outside) == entries.len(),
                entries.len() > 0,
                i <= match_scores.len(),
                forall|j: int| 0 <= j < i ==> !unfit(#[trigger] entries[j]),
            decreases match_scores.len() - i,
        {
            let same = same_id(&match_scores[i].matchup_id, &match_info.id);
            let score = match_scores[i].score;
            let ordered = 0 <= score.loser_score && score.loser_score <= score.winner_score;
            if !same || !ordered {
                proof {
                    assert(unfit(entries[i as int]));
                    lemma_first_where_is(entries, unfit, i as int);
                }
                if !same {
                    return Err(ValidationError::WrongMatchup);
                }
                return Err(ValidationError::ScoreOutOfOrder);
            }
            i += 1;
        }
        proof {
            lemma_first_where_is(entries, unfit, entries.len() as int);
            lemma_validated_is_batch(match_info, entries);
        }
        Ok(MatchScores { entries: match_scores, matchup: match_info })
    }

    /// Number of entries: at least one.
    pub fn len(&self) -> (n: usize)
        ensures
            n == self@.len(),
            n >= 1,
    {
        proof {
            use_type_invariant(self);
        }
        self.entries.len()
    }

    /// The matchup that the entries were accepted for.
    pub fn matchup_info(&self) -> (info: &MatchInfo)
        ensures
            *info == self.matchup(),
    {
        &self.matchup
    }

    /// The entries, in the order in which they were submitted.
    pub fn entries(&self) -> (entries: &Vec<MatchScoreInput>)
        ensures
            entry_views(entries@) == self@,
            is_score_batch(self.matchup(), self@),
    {
        proof {
            use_type_invariant(self);
        }
        &self.entries
    }

    /// Gives the entries up, in the order in which they were submitted.
    pub fn into_entries(self) -> (entries: Vec<MatchScoreInput>)
        ensures
            entry_views(entries@) == self@,
            is_score_batch(self.matchup(), self@),
    {
        proof {
            use_type_invariant(&self);
        }
        self.entries
    }
}

/// Entries are accepted exactly when they are a batch for the matchup, and
/// then all of them are, unchanged.
pub proof fn lemma_validated_is_batch(info: MatchInfo, entries: Seq<ScoreEntry>)
    ensures
        validated(info, entries) is Ok <==> is_score_batch(info, entries),
        validated(info, entries) is Ok ==> validated(info, entries)->Ok_0 == entries,
{
    lemma_first_where(entries, is_outsider(info));
    lemma_first_where(entries, is_unfit(info));
    let k = first_where(entries, is_outsider(info)) as int;
    let u = first_where(entries, is_unfit(info)) as int;
    if entries.len() > 0 {
        if k < entries.len() {
            assert(!info.has_player(entries[k].winner));
        } else if u < entries.len() {
            assert(entries[u].matchup_id != info.id || !entries[u].score.wf());
        } else {
            assert forall|i: int| 0 <= i < entries.len() implies {
                &&& (#[trigger] entries[i]).matchup_id == info.id
                &&& info.has_player(entries[i].winner)
                &&& entries[i].score.wf()
            } by {
                assert(!is_outsider(info)(entries[i]));
                assert(!is_unfit(info)(entries[i]));
            }
        }
    }
}

/// One entry whose winner is neither of the two players, wherever it
/// stands, has the whole batch refused, whatever the other entries are;
/// and the refusal names a winner who does not play.
pub proof fn lemma_one_outsider_rejects(info: MatchInfo, entries: Seq<ScoreEntry>, i: int)
    requires
        0 <= i < entries.len(),
        !info.has_player(entries[i].winner),
    ensures
        validated(info, entries) matches Err(Fault::PlayerNotInMatch(name)) && !info.has_player(
            name,
        ),
{
    lemma_first_where(entries, is_outsider(info));
    let k = first_where(entries, is_outsider(info)) as int;
    if k >= entries.len() {
        assert(!is_outsider(info)(entries[i]));
    }
}

} // verus!
