//! Tables from the primary snapshot alone: rank, name, ping and time on the server.

use crate::clock::{current_timestamp, format_playtime, playtime_text};
use crate::order::{lemma_sorted_order_is_stable, sorted_order, stable_order};
use crate::structs::player_list::{GamePlayer, GameTeam, PlayerList};
use crate::table::{render_table, rendered, rows_of};
use crate::text::{nat_text, texts_of, u64_text};
use crate::to_table::{concat, four_columns, lemma_row_formats, show_name, shown_name, title_table, title_text};
use vstd::prelude::*;

verus! {

/// The column labels of a team table.
pub open spec fn header_row() -> Seq<Seq<char>> {
    seq!["Rank"@, "Name"@, "Ping"@, "Playtime"@]
}

/// The row that stands for the players of a team without players.
pub open spec fn empty_row() -> Seq<Seq<char>> {
    seq!["N/A"@, "This team is empty"@, "N/A"@, "N/A"@]
}

/// The row of one player: rank, name behind the platoon tag, latency in milliseconds, and
/// the time on the server at `now`.
pub open spec fn player_row(player: GamePlayer, now: int) -> Seq<Seq<char>> {
    seq![
        nat_text(player.rank as nat),
        shown_name(player.platoon@, player.name@),
        nat_text(player.latency as nat) + "ms"@,
        playtime_text(player.join_time as int, now),
    ]
}

/// The slots of `players`, in the order received.
pub open spec fn slots_of(players: Seq<GamePlayer>) -> Seq<u64> {
    Seq::new(players.len(), |i: int| players[i].slot)
}

/// The rows below the column labels: one per player, by slot and among equal slots in the
/// order received; for a team without players the one row that says so.
pub open spec fn body_rows(players: Seq<GamePlayer>, now: int) -> Seq<Seq<Seq<char>>> {
    if players.len() == 0 {
        seq![empty_row()]
    } else {
        Seq::new(
            players.len(),
            |k: int| player_row(players[sorted_order(slots_of(players))[k] as int], now),
        )
    }
}

/// The rows of a team table: the column labels, then the body rows.
pub open spec fn team_rows(team: GameTeam, now: int) -> Seq<Seq<Seq<char>>> {
    seq![header_row()] + body_rows(team.players@, now)
}

/// The table of one team: its name as heading above the rows.
pub open spec fn team_text(team: GameTeam, now: int) -> Seq<char> {
    rendered(four_columns(), team.name@, team_rows(team, now))
}

/// The tables of all teams, in the order received.
pub open spec fn team_texts(teams: Seq<GameTeam>, now: int) -> Seq<Seq<char>> {
    Seq::new(teams.len(), |t: int| team_text(teams[t], now))
}

/// A team table never lacks body rows: there is one per player, and exactly one, the
/// placeholder, for a team without players. All its rows have four cells.
pub proof fn lemma_team_rows(team: GameTeam, now: int)
    ensures
        team.players@.len() == 0 ==> body_rows(team.players@, now) == seq![empty_row()],
        team.players@.len() > 0 ==> body_rows(team.players@, now).len() == team.players@.len(),
        body_rows(team.players@, now).len() >= 1,
        team_rows(team, now).len() == 1 + body_rows(team.players@, now).len(),
        forall|r: int|
            0 <= r < team_rows(team, now).len() ==> (#[trigger] team_rows(team, now)[r]).len() == 4,
{
    assert forall|r: int| 0 <= r < team_rows(team, now).len() implies (#[trigger] team_rows(
        team,
        now,
    )[r]).len() == 4 by {
        if r > 0 {
            assert(team_rows(team, now)[r] == body_rows(team.players@, now)[r - 1]);
        }
    }
}

fn player_cells(player: &GamePlayer, now: i64) -> (cells: Vec<String>)
    ensures
        texts_of(cells@) == player_row(*player, now as int),
{
    let ping = concat(u64_text(player.latency).as_str(), "ms");
    let cells = vec![
        u64_text(player.rank),
        show_name(player.platoon.as_str(), player.name.as_str()),
        ping,
        format_playtime(player.join_time, now),
    ];
    cells
}

fn team_table(team: &GameTeam, now: i64) -> (text: String)
    ensures
        text@ == team_text(*team, now as int),
{
    let header = vec![
        String::from_str("Rank"),
        String::from_str("Name"),
        String::from_str("Ping"),
        String::from_str("Playtime"),
    ];
    let mut rows: Vec<Vec<String>> = vec![header];
    let n = team.players.len();
    if n == 0 {
        let placeholder = vec![
            String::from_str("N/A"),
            String::from_str("This team is empty"),
            String::from_str("N/A"),
            String::from_str("N/A"),
        ];
        rows.push(placeholder);
    } else {
        let mut slots: Vec<u64> = Vec::new();
        let mut i: usize = 0;
        while i < n
            invariant
                n == team.players@.len(),
                i <= n,
                slots@.len() == i,
                forall|j: int| 0 <= j < i ==> slots@[j] == team.players@[j].slot,
            decreases n - i,
        {
            slots.push(team.players[i].slot);
            i = i + 1;
        }
        assert(slots@ =~= slots_of(team.players@));
        let order = stable_order(&slots);
        proof {
            lemma_sorted_order_is_stable(slots@);
        }
        let mut k: usize = 0;
        while k < n
            invariant
                n == team.players@.len(),
                n > 0,
                k <= n,
                order@ == sorted_order(slots_of(team.players@)),
                order@.len() == n,
                forall|a: int| 0 <= a < n ==> 0 <= #[trigger] order@[a] < n,
                rows@.len() == 1 + k,
                texts_of(rows@[0]@) == header_row(),
                forall|j: int|
                    0 <= j < k ==> texts_of((#[trigger] rows@[1 + j])@) == body_rows(
                        team.players@,
                        now as int,
                    )[j],
            decreases n - k,
        {
            let cells = player_cells(&team.players[order[k]], now);
            rows.push(cells);
            k = k + 1;
        }
    }
    proof {
        lemma_row_formats();
        lemma_team_rows(*team, now as int);
        assert(rows_of(rows@) =~= team_rows(*team, now as int)) by {
            assert forall|r: int| 0 <= r < rows@.len() implies rows_of(rows@)[r] == team_rows(
                *team,
                now as int,
            )[r] by {
                if r > 0 {
                    assert(rows@[1 + (r - 1)] == rows@[r]);
                }
            }
        }
    }
    render_table("{:<}  {:<}  {:<}  {:<}", team.name.as_str(), &rows)
}

/// Renders the title block and the table of every team, for a rendering at the instant `now`.
pub fn to_tables_at(result: &PlayerList, now: i64) -> (tables: (String, Vec<String>))
    ensures
        tables.0@ == title_text(*result, None, now as int),
        texts_of(tables.1@) == team_texts(result.teams@, now as int),
{
    let mut teams: Vec<String> = Vec::new();
    let mut t: usize = 0;
    while t < result.teams.len()
        invariant
            t <= result.teams@.len(),
            teams@.len() == t,
            forall|u: int|
                0 <= u < t ==> (#[trigger] teams@[u])@ == team_text(result.teams@[u], now as int),
        decreases result.teams@.len() - t,
    {
        teams.push(team_table(&result.teams[t], now));
        t = t + 1;
    }
    let title = title_table(result, None, now);
    (title, teams)
}

/// Renders the title block and the table of every team as of now.
///
/// The instant of rendering is read from the clock, so the tables are those of
/// [`to_tables_at`] for some instant.
pub fn to_tables(result: &PlayerList) -> (tables: (String, Vec<String>))
    ensures
        exists|now: i64|
            tables.0@ == title_text(*result, None, now as int) && texts_of(tables.1@)
                == #[trigger] team_texts(result.teams@, now as int),
{
    let now = current_timestamp();
    to_tables_at(result, now)
}

} // verus!
