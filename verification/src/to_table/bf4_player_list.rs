//! Tables from the detailed report of the second game: rank, name, score and kills to deaths.

use crate::clock::{current_timestamp, format_instant, instant_text};
use crate::structs::bf4_player_list::{DetailedServerInfo, ScoreServerPlayer, ScoreTeamList};
use crate::table::{render_table, rendered, rows_of};
use crate::text::{i64_text, int_text, texts_of};
use crate::to_table::{concat, four_columns, lemma_row_formats, show_name, shown_name, three_columns};
use vstd::prelude::*;

verus! {

/// The column labels of a team table.
pub open spec fn header_row() -> Seq<Seq<char>> {
    seq!["Rank"@, "Name"@, "Score"@, "KD"@]
}

/// The row that stands for the players of a team without players.
pub open spec fn empty_row() -> Seq<Seq<char>> {
    seq!["N/A"@, "This team is empty"@, "N/A"@, "N/A"@]
}

/// The row of one player: rank, name behind the clan tag, score, and kills to deaths.
pub open spec fn player_row(player: ScoreServerPlayer) -> Seq<Seq<char>> {
    seq![
        int_text(player.rank as int),
        shown_name(player.tag@, player.name@),
        int_text(player.score as int),
        int_text(player.kills as int) + "/"@ + int_text(player.deaths as int),
    ]
}

/// The rows below the column labels: one per player in the order received; for a team
/// without players the one row that says so.
pub open spec fn body_rows(players: Seq<ScoreServerPlayer>) -> Seq<Seq<Seq<char>>> {
    if players.len() == 0 {
        seq![empty_row()]
    } else {
        Seq::new(players.len(), |k: int| player_row(players[k]))
    }
}

/// The rows of a team table: the column labels, then the body rows.
pub open spec fn team_rows(team: ScoreTeamList) -> Seq<Seq<Seq<char>>> {
    seq![header_row()] + body_rows(team.players@)
}

/// The table of one team: its identifier as heading above the rows.
pub open spec fn team_text(team: ScoreTeamList) -> Seq<char> {
    rendered(four_columns(), team.teamid@, team_rows(team))
}

/// The tables of all teams, in the order received.
pub open spec fn team_texts(teams: Seq<ScoreTeamList>) -> Seq<Seq<char>> {
    Seq::new(teams.len(), |t: int| team_text(teams[t]))
}

/// The labels of the title block.
pub open spec fn title_labels() -> Seq<Seq<char>> {
    seq!["Last bot update"@, "Current map"@, "Favorites"@]
}

/// The rows of the title block: the labels, then the instant of rendering, the map with the
/// mode, and the number of favorites.
pub open spec fn title_rows(server_info: DetailedServerInfo, now: int) -> Seq<Seq<Seq<char>>> {
    seq![
        title_labels(),
        seq![
            instant_text(now),
            server_info.current_map@ + " - "@ + server_info.mode@,
            server_info.favorites@,
        ],
    ]
}

/// The title block: the server's prefix as heading above the rows.
pub open spec fn title_text(server_info: DetailedServerInfo, now: int) -> Seq<char> {
    rendered(three_columns(), server_info.prefix@ + " playerlist"@, title_rows(server_info, now))
}

/// A team table never lacks body rows: there is one per player, and exactly one, the
/// placeholder, for a team without players. All its rows have four cells.
pub proof fn lemma_team_rows(team: ScoreTeamList)
    ensures
        team.players@.len() == 0 ==> body_rows(team.players@) == seq![empty_row()],
        team.players@.len() > 0 ==> body_rows(team.players@).len() == team.players@.len(),
        body_rows(team.players@).len() >= 1,
        team_rows(team).len() == 1 + body_rows(team.players@).len(),
        forall|r: int| 0 <= r < team_rows(team).len() ==> (#[trigger] team_rows(team)[r]).len() == 4,
{
    assert forall|r: int| 0 <= r < team_rows(team).len() implies (#[trigger] team_rows(
        team,
    )[r]).len() == 4 by {
        if r > 0 {
            assert(team_rows(team)[r] == body_rows(team.players@)[r - 1]);
        }
    }
}

fn player_cells(player: &ScoreServerPlayer) -> (cells: Vec<String>)
    ensures
        texts_of(cells@) == player_row(*player),
{
    let mut ratio = i64_text(player.kills);
    ratio.append("/");
    ratio.append(i64_text(player.deaths).as_str());
    let cells = vec![
        i64_text(player.rank),
        show_name(player.tag.as_str(), player.name.as_str()),
        i64_text(player.score),
        ratio,
    ];
    cells
}

fn team_table(team: &ScoreTeamList) -> (text: String)
    ensures
        text@ == team_text(*team),
{
    let header = vec![
        String::from_str("Rank"),
        String::from_str("Name"),
        String::from_str("Score"),
        String::from_str("KD"),
    ];
    let mut rows: Vec<Vec<String>> = vec![header];
    let n = team.players.len();
    if n == 0 {
        let placeholder = vec![
            String::from_str("N/A"),
            String::from_str("This team is empty"),
            String::from_str("N/A"),
            String::from_str("N/A"),
        ];
        rows.push(placeholder);
    } else {
        let mut k: usize = 0;
        while k < n
            invariant
                n == team.players@.len(),
                n > 0,
                k <= n,
                rows@.len() == 1 + k,
                texts_of(rows@[0]@) == header_row(),
                forall|j: int|
                    0 <= j < k ==> texts_of((#[trigger] rows@[1 + j])@) == body_rows(
                        team.players@,
                    )[j],
            decreases n - k,
        {
            let cells = player_cells(&team.players[k]);
            rows.push(cells);
            k = k + 1;
        }
    }
    proof {
        lemma_row_formats();
        lemma_team_rows(*team);
        assert(rows_of(rows@) =~= team_rows(*team)) by {
            assert forall|r: int| 0 <= r < rows@.len() implies rows_of(rows@)[r] == team_rows(
                *team,
            )[r] by {
                if r > 0 {
                    assert(rows@[1 + (r - 1)] == rows@[r]);
                }
            }
        }
    }
    render_table("{:<}  {:<}  {:<}  {:<}", team.teamid.as_str(), &rows)
}

/// Renders the title block for a rendering at the instant `now`.
pub fn title_table(server_info: &DetailedServerInfo, now: i64) -> (title: String)
    ensures
        title@ == title_text(*server_info, now as int),
{
    let labels = vec![
        String::from_str("Last bot update"),
        String::from_str("Current map"),
        String::from_str("Favorites"),
    ];
    let mut map = concat(server_info.current_map.as_str(), " - ");
    map.append(server_info.mode.as_str());
    let values = vec![format_instant(now), map, server_info.favorites.clone()];
    let rows = vec![labels, values];
    let heading = concat(server_info.prefix.as_str(), " playerlist");
    proof {
        lemma_row_formats();
        assert(texts_of(labels@) =~= title_labels());
        assert(texts_of(values@) =~= title_rows(*server_info, now as int)[1]);
        assert(rows_of(rows@) =~= title_rows(*server_info, now as int));
    }
    render_table("{:<}  {:<}  {:<}", heading.as_str(), &rows)
}

/// The teams that a report lists: none where it carries no team list.
pub open spec fn listed_teams(result: DetailedServerInfo) -> Seq<ScoreTeamList> {
    match result.teams {
        Some(teams) => teams@,
        None => Seq::empty(),
    }
}

/// Renders the title block and the table of every team listed, for a rendering at the instant
/// `now`. A report without a team list gives the title block and no team table.
pub fn to_tables_at(result: &DetailedServerInfo, now: i64) -> (tables: (String, Vec<String>))
    ensures
        tables.0@ == title_text(*result, now as int),
        texts_of(tables.1@) == team_texts(listed_teams(*result)),
        result.teams is None ==> tables.1@.len() == 0,
{
    let mut teams: Vec<String> = Vec::new();
    match &result.teams {
        Some(listed) => {
            let mut t: usize = 0;
            while t < listed.len()
                invariant
                    t <= listed@.len(),
                    teams@.len() == t,
                    forall|u: int| 0 <= u < t ==> (#[trigger] teams@[u])@ == team_text(listed@[u]),
                decreases listed@.len() - t,
            {
                teams.push(team_table(&listed[t]));
                t = t + 1;
            }
        },
        None => {},
    }
    let title = title_table(result, now);
    (title, teams)
}

/// Renders the title block and the table of every team listed as of now. A report without a
/// team list gives the title block and no team table.
///
/// The instant of rendering is read from the clock, so the tables are those of
/// [`to_tables_at`] for some instant.
pub fn to_tables(result: &DetailedServerInfo) -> (tables: (String, Vec<String>))
    ensures
        exists|now: i64| tables.0@ == #[trigger] title_text(*result, now as int),
        texts_of(tables.1@) == team_texts(listed_teams(*result)),
        result.teams is None ==> tables.1@.len() == 0,
{
    let now = current_timestamp();
    to_tables_at(result, now)
}

} // verus!
