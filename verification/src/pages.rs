//! The parts of the scores pages that depend on data: the entry forms, the
//! table of recorded games and the summary of a matchup.

use vstd::prelude::*;
use vstd::string::StringExecFns;
use uuid::Uuid;
use crate::date::{date_text, is_iso_day, iso_text, write_date};
use crate::html_base::{compose_html, page_of};
use crate::ids::{id_text, id_written};
use crate::series::{MatchScore, PlayedGame, ScoreHistory};
use crate::text::{count_text, integer_text};

verus! {

/// How a row of the table of games starts, up to the winner.
pub const ROW_OPEN: &'static str = "
            <tr>
              <th scope=\"row\">1</th>
              <td>";

/// What stands between two cells of a row.
pub const ROW_NEXT: &'static str = "</td>
              <td>";

/// How a row of the table of games ends.
pub const ROW_CLOSE: &'static str = "</td>
            </tr>
        ";

/// How the summary of a matchup starts, up to the matchup's identifier.
pub const SUMMARY_OPEN: &'static str = "
        <h1>Match Scores for Match</h1>
        <h2>";

/// The head of the table of games.
pub const SUMMARY_TABLE: &'static str = "</h2>
        <table role=\"grid\">
          <thead>
            <tr>
              <th scope=\"col\">#</th>
              <th scope=\"col\">winner</th>
              <th scope=\"col\">winner_score</th>
              <th scope=\"col\">loser_score</th>
              <th scope=\"col\">played_at</th>
            </tr>
          </thead>
          <tbody>
            ";

/// What follows the rows: the end of the table and the start of the chart's address.
pub const SUMMARY_CHART: &'static str = "
          </tbody>
        </table>
        <div>
          <img src=\"images/match_plots/";

/// How the summary of a matchup ends.
pub const SUMMARY_CLOSE: &'static str = ".png\" alt=\"Match Results Graph\" width=\"640\" height=\"480\">
        </div>
      </main>
    ";

/// How the part that offers the two entry forms starts.
pub const SCORE_FORM_OPEN: &'static str = "
        <div>
          <h2>Add Score</h2>
          <div class=\"grid\">
            <div class=\"grid\">
              <button hx-get=\"/scores/single_result_form\" hx-trigger=\"load,click\" hx-target=\"#score_entry_form\" hx-vals='{\"matchup_id\":\"";

/// What stands between the two buttons of that part.
pub const SCORE_FORM_NEXT: &'static str = "\"}' hx-swap=\"outerHTML ignoreTitle:true\">Single Result Entry</button>
              <button hx-get=\"/scores/batch_result_form\" hx-target=\"#score_entry_form\" hx-vals='{\"matchup_id\":\"";

/// How that part ends.
pub const SCORE_FORM_CLOSE: &'static str = "\"}' hx-swap=\"outerHTML ignoreTitle:true\">Multiple Result Entry</button>
            </div>
          </div>
          <div id=\"score_entry_form\"</div>
        </div>
    ";

/// How the page of one matchup starts, up to the matchup's identifier.
pub const MATCH_PAGE_OPEN: &'static str = "
      <main class=\"container\">
        <h1>Match Scores for Match</h1>
        <h2>";

/// The entry form of that page, up to the identifier it is filled with.
pub const MATCH_PAGE_FORM: &'static str = "</h2>
        <form action=\"/scores\" method=\"post\">
          <div class=\"grid\">
            <label for=\"matchup_id\">
              Matchup Id
              <input type=\"text\" id=\"matchup_id\" name=\"matchup_id\" placeholder=\"Matchup Id\" value=\"";

/// The rest of the entry form and the head of the table of games.
pub const MATCH_PAGE_TABLE: &'static str = "\" required>
            </label>
            <label for=\"winner_initials\">
              Winner Credentials
              <input type=\"text\" id=\"winner_initials\" name=\"winner_initials\" placeholder=\"Winner Initials\" required>
            </label>
          </div>
          <div class=\"grid\">
            <label for=\"score\">
              Score, separated by :
              <input type=\"text\" id=\"score\" name=\"score\" placeholder=\"Score\" required>
            </label>
            <label for=\"played_at\">
              Date the match was played at
              <input type=\"date\" id=\"played_at\" name=\"played_at\" placeholder=\"dd.mm.yyyy\" required>
            </label>
          </div>
          <button type=\"submit\">Submit</button>
        </form>
        <table role=\"grid\">
          <thead>
            <tr>
              <th scope=\"col\">#</th>
              <th scope=\"col\">winner</th>
              <th scope=\"col\">winner_score</th>
              <th scope=\"col\">loser_score</th>
              <th scope=\"col\">played_at</th>
            </tr>
          </thead>
          <tbody>
            ";

/// How the page of one matchup ends.
pub const MATCH_PAGE_CLOSE: &'static str = "
          </tbody>
        </table>
      </main>
    ";

/// How the form for several results starts, up to the attribute that fills in the matchup.
pub const BATCH_FORM_OPEN: &'static str = "
    <div id=\"score_entry_form\">
        <form id=\"batch_upload\" action=\"/scores_batch\" method=\"post\">
            <div class=\"grid\">
              <label for=\"matchup_id\">
                Matchup Id
                <input type=\"text\" id=\"matchup_id\" name=\"matchup_id\" placeholder=\"Matchup Id\" ";

/// The rest of the form for several results.
pub const BATCH_FORM_CLOSE: &'static str = " required>
              </label>
              <label for=\"raw_matches_list\">
                Raw matches list
                <textarea id=\"raw_matches_list\" name=\"raw_matches_list\" placeholder=\"Raw matches list, e.g. 2023-02-22 P1 2:1\" rows=\"5\" required></textarea>
              </label>
            </div>
        </form>
    </div>
    ";

/// How the form for one result starts, up to the attribute that fills in the matchup.
pub const SINGLE_FORM_OPEN: &'static str = "
            <div id=\"score_entry_form\">
              <form id=\"single_result\" action=\"/scores/scores_single\" method=\"post\">
                <div class=\"grid\">
                  <label for=\"matchup_id\">
                    Matchup Id
                    <input type=\"text\" id=\"matchup_id\" name=\"matchup_id\" placeholder=\"Matchup Id\" ";

/// The rest of the form for one result.
pub const SINGLE_FORM_CLOSE: &'static str = " required>
                  </label>
                  <label for=\"winner_initials\">
                    Winner Credentials
                    <input type=\"text\" id=\"winner_initials\" name=\"winner_initials\" placeholder=\"Winner Initials\" required>
                  </label>
                </div>
                <div class=\"grid\">
                  <label for=\"score\">
                    Score, separated by \":\"
                    <input type=\"text\" id=\"score\" name=\"score\" placeholder=\"Score\" required>
                  </label>
                  <label for=\"played_at\">
                    Date the match was played at
                    <input type=\"date\" id=\"played_at\" name=\"played_at\" placeholder=\"dd.mm.yyyy\" required>
                  </label>
                </div>
              </form>
              <div class=\"grid\">
                <button type=\"submit\" form=\"single_result\">Submit</button>
              </div>
        ";

/// What introduces the scores page.
pub const SCORES_INTRO: &'static str = "
        <h1>Scores</h1>
        <p>Pick a matchup to see its games, or add new results below.</p>
    ";

/// Where the chart of the matchup written `match_id` is kept.
pub open spec fn plot_path_of(match_id: Seq<char>) -> Seq<char> {
    "images/match_plots/"@ + match_id + ".png"@
}

/// Where the chart of the matchup written `match_id` is kept.
pub fn plot_path(match_id: &str) -> (path: String)
    ensures
        path@ == plot_path_of(match_id@),
{
    String::from_str("images/match_plots/").concat(match_id).concat(".png")
}

/// The table row of `game`, with `day` for the day it was played on.
pub open spec fn row_of(game: PlayedGame, day: Seq<char>) -> Seq<char> {
    ROW_OPEN@ + game.winner + ROW_NEXT@ + integer_text(game.winner_score as int) + ROW_NEXT@
        + integer_text(game.loser_score as int) + ROW_NEXT@ + day + ROW_CLOSE@
}

/// Whether chrono can write the day of every game in `games`.
pub open spec fn days_can_be_written(games: Seq<PlayedGame>) -> bool {
    forall|i: int| 0 <= i < games.len() ==> date_text((#[trigger] games[i]).played_at) is Some
}

/// Whether every game in `games` was played on a day of the calendar, in a
/// year that is written with four digits. Chrono writes such a day as
/// `YYYY-MM-DD`.
pub open spec fn days_are_iso(games: Seq<PlayedGame>) -> bool {
    forall|i: int| 0 <= i < games.len() ==> is_iso_day((#[trigger] games[i]).played_at)
}

/// Whether the text of every such day in `games` is known to be the day
/// written as `YYYY-MM-DD`.
pub open spec fn iso_days_are_plain(games: Seq<PlayedGame>) -> bool {
    forall|i: int|
        0 <= i < games.len() && is_iso_day((#[trigger] games[i]).played_at) ==> date_text(
            games[i].played_at,
        ) == Some(iso_text(games[i].played_at))
}

/// The rows of the table of `games`, one below the other.
pub open spec fn rows_of(games: Seq<PlayedGame>) -> Seq<char>
    decreases games.len(),
{
    if games.len() == 0 {
        Seq::empty()
    } else if games.len() == 1 {
        row_of(games[0], date_text(games[0].played_at)->Some_0)
    } else {
        rows_of(games.drop_last()) + seq!['\n'] + row_of(
            games.last(),
            date_text(games.last().played_at)->Some_0,
        )
    }
}

/// Writes the table row of `game`, with `day` for the day it was played on.
pub fn score_row(game: &MatchScore, day: &str) -> (row: String)
    ensures
        row@ == row_of(game@, day@),
{
    let mut row = String::from_str(ROW_OPEN);
    row.append(game.winner.as_str());
    row.append(ROW_NEXT);
    row.append(count_text(game.winner_score).as_str());
    row.append(ROW_NEXT);
    row.append(count_text(game.loser_score).as_str());
    row.append(ROW_NEXT);
    row.append(day);
    row.append(ROW_CLOSE);
    row
}

/// Writes the rows of the table of games, in the order of `history`.
/// There are no rows where a game's day is one that chrono cannot write;
/// it can write every day of the calendar in a year from 0 to 9999, and
/// writes it as `YYYY-MM-DD`.
pub fn match_rows(history: &ScoreHistory) -> (rows: Option<String>)
    ensures
        match rows {
            Some(text) => days_can_be_written(history@) && text@ == rows_of(history@),
            None => !days_can_be_written(history@),
        },
        days_are_iso(history@) ==> rows is Some,
        rows is Some ==> iso_days_are_plain(history@),
{
    let mut rows = String::new();
    let mut i: usize = 0;
    assert(history@.take(0) == Seq::<PlayedGame>::empty());
    while i < history.0.len()
        invariant
            i <= history.0.len(),
            days_can_be_written(history@.take(i as int)),
            iso_days_are_plain(history@.take(i as int)),
            rows@ == rows_of(history@.take(i as int)),
        decreases history.0.len() - i,
    {
        let ghost taken = history@.take(i + 1);
        proof {
            assert(taken.drop_last() == history@.take(i as int));
            assert(taken.last() == history.0[i as int]@);
            assert(taken[i as int] == history@[i as int]);
        }
        let day = match write_date(history.0[i].played_at) {
            Some(day) => day,
            None => {
                assert(!is_iso_day(history@[i as int].played_at));
                return None;
            },
        };
        if i > 0 {
            proof {
                reveal_strlit("\n");
                assert("\n"@ =~= seq!['\n']);
            }
            rows.append("\n");
        }
        rows.append(score_row(&history.0[i], day.as_str()).as_str());
        proof {
            assert forall|j: int| 0 <= j < taken.len() implies date_text(
                (#[trigger] taken[j]).played_at,
            ) is Some && (is_iso_day(taken[j].played_at) ==> date_text(taken[j].played_at) == Some(
                iso_text(taken[j].played_at),
            )) by {
                if j < i {
                    assert(history@.take(i as int)[j] == taken[j]);
                }
            }
            if i == 0 {
                assert(rows@ =~= rows_of(taken));
            }
        }
        i += 1;
    }
    assert(history@.take(history.0.len() as int) == history@);
    Some(rows)
}

/// The summary of the matchup written `match_id`: heading, the table with
/// `rows`, and the chart.
pub open spec fn summary_of(match_id: Seq<char>, rows: Seq<char>) -> Seq<char> {
    SUMMARY_OPEN@ + match_id + SUMMARY_TABLE@ + rows + SUMMARY_CHART@ + match_id + SUMMARY_CLOSE@
}

/// Writes the summary of the matchup written `match_id` around the table
/// rows `rows`.
pub fn match_summary_of(match_id: &str, rows: &str) -> (html: String)
    ensures
        html@ == summary_of(match_id@, rows@),
{
    let mut html = String::from_str(SUMMARY_OPEN);
    html.append(match_id);
    html.append(SUMMARY_TABLE);
    html.append(rows);
    html.append(SUMMARY_CHART);
    html.append(match_id);
    html.append(SUMMARY_CLOSE);
    html
}

/// Writes the summary of a matchup from its recorded games. The
/// identifier is written as `uuid` prints it. There is no summary where a
/// game's day is one that chrono cannot write.
pub fn match_summary(match_id: Uuid, history: &ScoreHistory) -> (html: Option<String>)
    ensures
        match html {
            Some(html) => days_can_be_written(history@) && html@ == summary_of(
                id_written(match_id),
                rows_of(history@),
            ),
            None => !days_can_be_written(history@),
        },
        days_are_iso(history@) ==> html is Some,
        html is Some ==> iso_days_are_plain(history@),
{
    match match_rows(history) {
        Some(rows) => {
            let id = id_text(&match_id);
            Some(match_summary_of(id.as_str(), rows.as_str()))
        },
        None => None,
    }
}

/// The page of the matchup written `match_id`: heading, an entry form
/// filled with the identifier, and the table with `rows`; all of it set in
/// the frame of the site.
pub open spec fn match_page_of(match_id: Seq<char>, rows: Seq<char>) -> Seq<char> {
    page_of(
        MATCH_PAGE_OPEN@ + match_id + MATCH_PAGE_FORM@ + match_id + MATCH_PAGE_TABLE@ + rows
            + MATCH_PAGE_CLOSE@,
    )
}

/// Writes the page of the matchup written `match_id` around the table rows
/// `rows`.
pub fn match_page(match_id: &str, rows: &str) -> (html: String)
    ensures
        html@ == match_page_of(match_id@, rows@),
{
    let mut html = String::from_str(MATCH_PAGE_OPEN);
    html.append(match_id);
    html.append(MATCH_PAGE_FORM);
    html.append(match_id);
    html.append(MATCH_PAGE_TABLE);
    html.append(rows);
    html.append(MATCH_PAGE_CLOSE);
    compose_html(html.as_str())
}

/// The part of the scores page that offers the two entry forms for the
/// matchup written `matchup_id`; nothing where no matchup is chosen.
pub open spec fn score_form_of(matchup_id: Option<Seq<char>>) -> Seq<char> {
    match matchup_id {
        Some(id) => SCORE_FORM_OPEN@ + id + SCORE_FORM_NEXT@ + id + SCORE_FORM_CLOSE@,
        None => Seq::empty(),
    }
}

/// The text of an optional identifier, as `uuid` writes it.
pub open spec fn id_view(id: Option<Uuid>) -> Option<Seq<char>> {
    match id {
        Some(id) => Some(id_written(id)),
        None => None,
    }
}

/// The view of an optional string slice.
pub open spec fn text_view(text: Option<&str>) -> Option<Seq<char>> {
    match text {
        Some(text) => Some(text@),
        None => None,
    }
}

/// Writes the part of the scores page that offers the two entry forms.
pub fn insert_score_form_of(matchup_id: Option<&str>) -> (html: String)
    ensures
        html@ == score_form_of(text_view(matchup_id)),
{
    match matchup_id {
        Some(id) => {
            let mut html = String::from_str(SCORE_FORM_OPEN);
            html.append(id);
            html.append(SCORE_FORM_NEXT);
            html.append(id);
            html.append(SCORE_FORM_CLOSE);
            html
        },
        None => String::new(),
    }
}

/// Writes the part of the scores page that offers the two entry forms for
/// the matchup `matchup_id`, written as `uuid` prints it.
pub fn insert_score_form(matchup_id: Option<Uuid>) -> (html: String)
    ensures
        html@ == score_form_of(id_view(matchup_id)),
{
    match matchup_id {
        Some(matchup_id) => {
            let id = id_text(&matchup_id);
            insert_score_form_of(Some(id.as_str()))
        },
        None => insert_score_form_of(None),
    }
}

/// The attribute that fills a form's matchup field with `matchup_id`;
/// nothing where no matchup is chosen.
pub open spec fn filled_in(matchup_id: Option<Seq<char>>) -> Seq<char> {
    match matchup_id {
        Some(id) => "value="@ + id,
        None => Seq::empty(),
    }
}

/// Writes the attribute that fills a form's matchup field.
fn default_matchup(matchup_id: Option<&str>) -> (attribute: String)
    ensures
        attribute@ == filled_in(text_view(matchup_id)),
{
    match matchup_id {
        Some(id) => String::from_str("value=").concat(id),
        None => String::new(),
    }
}

/// The form for several results at once.
pub open spec fn batch_form_of(matchup_id: Option<Seq<char>>) -> Seq<char> {
    BATCH_FORM_OPEN@ + filled_in(matchup_id) + BATCH_FORM_CLOSE@
}

/// Writes the form for several results at once.
pub fn batch_result_form(matchup_id: Option<&str>) -> (body: String)
    ensures
        body@ == batch_form_of(text_view(matchup_id)),
{
    let mut body = String::from_str(BATCH_FORM_OPEN);
    body.append(default_matchup(matchup_id).as_str());
    body.append(BATCH_FORM_CLOSE);
    body
}

/// Writes the form for several results at once, filled with the matchup
/// `matchup_id` as `uuid` prints it.
pub fn get_batch_result_form(matchup_id: Option<Uuid>) -> (body: String)
    ensures
        body@ == batch_form_of(id_view(matchup_id)),
{
    match matchup_id {
        Some(matchup_id) => {
            let id = id_text(&matchup_id);
            batch_result_form(Some(id.as_str()))
        },
        None => batch_result_form(None),
    }
}

/// The form for one result.
pub open spec fn single_form_of(matchup_id: Option<Seq<char>>) -> Seq<char> {
    SINGLE_FORM_OPEN@ + filled_in(matchup_id) + SINGLE_FORM_CLOSE@
}

/// Writes the form for one result.
pub fn single_result_form(matchup_id: Option<&str>) -> (body: String)
    ensures
        body@ == single_form_of(text_view(matchup_id)),
{
    let mut body = String::from_str(SINGLE_FORM_OPEN);
    body.append(default_matchup(matchup_id).as_str());
    body.append(SINGLE_FORM_CLOSE);
    body
}

/// Writes the form for one result, filled with the matchup `matchup_id` as
/// `uuid` prints it.
pub fn get_single_result_form(matchup_id: Option<Uuid>) -> (body: String)
    ensures
        body@ == single_form_of(id_view(matchup_id)),
{
    match matchup_id {
        Some(matchup_id) => {
            let id = id_text(&matchup_id);
            single_result_form(Some(id.as_str()))
        },
        None => single_result_form(None),
    }
}

/// The scores page: the notices, then the introduction, the entry forms
/// and the summary of the chosen matchup; all of it set in the frame of
/// the site.
pub open spec fn scores_page_of(notices: Seq<char>, form: Seq<char>, scores: Seq<char>) -> Seq<
    char,
> {
    page_of(
        notices + "\n<main class=\"container\">"@ + SCORES_INTRO@ + form + scores + "</main>"@,
    )
}

/// Writes the scores page from its parts.
pub fn scores_page(error_html: &str, insert_score_form: &str, scores: &str) -> (html: String)
    ensures
        html@ == scores_page_of(error_html@, insert_score_form@, scores@),
{
    let mut main_div = String::from_str(error_html);
    main_div.append("\n<main class=\"container\">");
    main_div.append(SCORES_INTRO);
    main_div.append(insert_score_form);
    main_div.append(scores);
    main_div.append("</main>");
    compose_html(main_div.as_str())
}

} // verus!
