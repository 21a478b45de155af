//! Tables from the enriched snapshot joined with the primary one: squad, class, rank, name,
//! score and kills to deaths from the enriched snapshot, ping and time on the server from
//! the primary one.

use crate::clock::{current_timestamp, format_playtime, playtime_text};
use crate::merge::{link_values, links_of, merge, row_links, MergedView};
use crate::order::{lemma_sorted_order_is_stable, sorted_order, stable_order};
use crate::structs::player_list::{GamePlayer, PlayerList};
use crate::structs::seeder_player_list::{SeederPlayerList, SeederServerPlayer, SeederServerTeam};
use crate::table::{render_table, rendered, rows_of};
use crate::text::{i64_text, int_text, nat_text, texts_of, u64_text};
use crate::to_table::{concat, eight_columns, lemma_row_formats, show_name, shown_name, title_table, title_text};
use vstd::prelude::*;

verus! {

/// The column labels of a team table.
pub open spec fn header_row() -> Seq<Seq<char>> {
    seq!["Squad"@, "Class"@, "Rank"@, "Name"@, "Score"@, "KD"@, "Ping"@, "Playtime"@]
}

/// The row that stands for the players of a team without players.
pub open spec fn empty_row() -> Seq<Seq<char>> {
    seq!["N/A"@, "This team is empty"@, "N/A"@, "N/A"@, "N/A"@, "N/A"@, "N/A"@, "N/A"@]
}

/// The name of a player's class, empty if the snapshot names none.
pub open spec fn class_text(player: SeederServerPlayer) -> Seq<char> {
    match player.player_class.class_name {
        Some(name) => name@,
        None => Seq::empty(),
    }
}

/// What stands in a cell whose value only the primary snapshot has, while the primary
/// snapshot does not know the player yet.
pub open spec fn unknown_mark() -> Seq<char> {
    "?"@
}

/// A player's latency as shown: in milliseconds, or the mark for an unknown value.
pub open spec fn ping_text(link: Option<GamePlayer>) -> Seq<char> {
    match link {
        Some(known) => nat_text(known.latency as nat) + "ms"@,
        None => unknown_mark(),
    }
}

/// A player's time on the server at `now` as shown: in words, or the mark for an unknown
/// value.
pub open spec fn joined_text(link: Option<GamePlayer>, now: int) -> Seq<char> {
    match link {
        Some(known) => playtime_text(known.join_time as int, now),
        None => unknown_mark(),
    }
}

/// The row of one player.
pub open spec fn player_row(player: SeederServerPlayer, link: Option<GamePlayer>, now: int) -> Seq<
    Seq<char>,
> {
    seq![
        player.squad_name@,
        class_text(player),
        nat_text(player.rank as nat),
        shown_name(player.platoon.name@, player.name@),
        nat_text(player.score as nat),
        nat_text(player.kills as nat) + "/"@ + nat_text(player.deaths as nat),
        ping_text(link),
        joined_text(link, now),
    ]
}

/// The index fields of `players`, in the order received.
pub open spec fn indices_of(players: Seq<SeederServerPlayer>) -> Seq<u64> {
    Seq::new(players.len(), |i: int| players[i].index)
}

/// The link of the player in place `p`, none if the links do not reach that far.
pub open spec fn link_in(links: Seq<Option<GamePlayer>>, p: int) -> Option<GamePlayer> {
    if 0 <= p < links.len() {
        links[p]
    } else {
        None
    }
}

/// The links of the team in place `t`, none if the links do not reach that far.
pub open spec fn links_in(links: Seq<Seq<Option<GamePlayer>>>, t: int) -> Seq<Option<GamePlayer>> {
    if 0 <= t < links.len() {
        links[t]
    } else {
        Seq::empty()
    }
}

/// The rows below the column labels: one per player, by index field and among equal ones in
/// the order received; for a team without players the one row that says so.
pub open spec fn body_rows(
    players: Seq<SeederServerPlayer>,
    links: Seq<Option<GamePlayer>>,
    now: int,
) -> Seq<Seq<Seq<char>>> {
    if players.len() == 0 {
        seq![empty_row()]
    } else {
        Seq::new(
            players.len(),
            |k: int|
                {
                    let place = sorted_order(indices_of(players))[k] as int;
                    player_row(players[place], link_in(links, place), now)
                },
        )
    }
}

/// The rows of a team table: the column labels, then the body rows.
pub open spec fn team_rows(team: SeederServerTeam, links: Seq<Option<GamePlayer>>, now: int) -> Seq<
    Seq<Seq<char>>,
> {
    seq![header_row()] + body_rows(team.players@, links, now)
}

/// The heading of a team table: the team's name and its score.
pub open spec fn team_heading(team: SeederServerTeam) -> Seq<char> {
    team.name@ + " - score: "@ + int_text(team.score as int)
}

/// The table of one team.
pub open spec fn team_text(team: SeederServerTeam, links: Seq<Option<GamePlayer>>, now: int) -> Seq<
    char,
> {
    rendered(eight_columns(), team_heading(team), team_rows(team, links, now))
}

/// The tables of all teams, in the order received.
pub open spec fn team_texts(
    teams: Seq<SeederServerTeam>,
    links: Seq<Seq<Option<GamePlayer>>>,
    now: int,
) -> Seq<Seq<char>> {
    Seq::new(teams.len(), |t: int| team_text(teams[t], links_in(links, t), now))
}

/// A team table never lacks body rows: there is one per player, and exactly one, the
/// placeholder, for a team without players. All its rows have eight cells.
pub proof fn lemma_team_rows(team: SeederServerTeam, links: Seq<Option<GamePlayer>>, now: int)
    ensures
        team.players@.len() == 0 ==> body_rows(team.players@, links, now) == seq![empty_row()],
        team.players@.len() > 0 ==> body_rows(team.players@, links, now).len()
            == team.players@.len(),
        body_rows(team.players@, links, now).len() >= 1,
        team_rows(team, links, now).len() == 1 + body_rows(team.players@, links, now).len(),
        forall|r: int|
            0 <= r < team_rows(team, links, now).len() ==> (#[trigger] team_rows(
                team,
                links,
                now,
            )[r]).len() == 8,
{
    assert forall|r: int| 0 <= r < team_rows(team, links, now).len() implies (#[trigger] team_rows(
        team,
        links,
        now,
    )[r]).len() == 8 by {
        if r > 0 {
            assert(team_rows(team, links, now)[r] == body_rows(team.players@, links, now)[r - 1]);
        }
    }
}

fn player_cells(player: &SeederServerPlayer, link: Option<&GamePlayer>, now: i64) -> (cells: Vec<
    String,
>)
    ensures
        texts_of(cells@) == player_row(
            *player,
            match link {
                Some(known) => Some(*known),
                None => None,
            },
            now as int,
        ),
{
    let class = match &player.player_class.class_name {
        Some(name) => name.clone(),
        None => String::new(),
    };
    let mut ratio = u64_text(player.kills);
    ratio.append("/");
    ratio.append(u64_text(player.deaths).as_str());
    let ping = match link {
        Some(known) => concat(u64_text(known.latency).as_str(), "ms"),
        None => String::from_str("?"),
    };
    let playtime = match link {
        Some(known) => format_playtime(known.join_time, now),
        None => String::from_str("?"),
    };
    let cells = vec![
        player.squad_name.clone(),
        class,
        u64_text(player.rank),
        show_name(player.platoon.name.as_str(), player.name.as_str()),
        u64_text(player.score),
        ratio,
        ping,
        playtime,
    ];
    proof {
        let value = match link {
            Some(known) => Some(*known),
            None => None,
        };
        assert(texts_of(cells@) =~= player_row(*player, value, now as int));
    }
    cells
}

fn team_table(team: &SeederServerTeam, links: &Vec<Option<&GamePlayer>>, now: i64) -> (text: String)
    ensures
        text@ == team_text(*team, row_links(links@), now as int),
{
    let header = vec![
        String::from_str("Squad"),
        String::from_str("Class"),
        String::from_str("Rank"),
        String::from_str("Name"),
        String::from_str("Score"),
        String::from_str("KD"),
        String::from_str("Ping"),
        String::from_str("Playtime"),
    ];
    let mut rows: Vec<Vec<String>> = vec![header];
    let n = team.players.len();
    if n == 0 {
        let placeholder = vec![
            String::from_str("N/A"),
            String::from_str("This team is empty"),
            String::from_str("N/A"),
            String::from_str("N/A"),
            String::from_str("N/A"),
            String::from_str("N/A"),
            String::from_str("N/A"),
            String::from_str("N/A"),
        ];
        rows.push(placeholder);
    } else {
        let mut keys: Vec<u64> = Vec::new();
        let mut i: usize = 0;
        while i < n
            invariant
                n == team.players@.len(),
                i <= n,
                keys@.len() == i,
                forall|j: int| 0 <= j < i ==> keys@[j] == team.players@[j].index,
            decreases n - i,
        {
            keys.push(team.players[i].index);
            i = i + 1;
        }
        assert(keys@ =~= indices_of(team.players@));
        let order = stable_order(&keys);
        proof {
            lemma_sorted_order_is_stable(keys@);
        }
        let mut k: usize = 0;
        while k < n
            invariant
                n == team.players@.len(),
                n > 0,
                k <= n,
                order@ == sorted_order(indices_of(team.players@)),
                order@.len() == n,
                forall|a: int| 0 <= a < n ==> 0 <= #[trigger] order@[a] < n,
                rows@.len() == 1 + k,
                texts_of(rows@[0]@) == header_row(),
                forall|j: int|
                    0 <= j < k ==> texts_of((#[trigger] rows@[1 + j])@) == body_rows(
                        team.players@,
                        row_links(links@),
                        now as int,
                    )[j],
            decreases n - k,
        {
            let place = order[k];
            let link: Option<&GamePlayer> = if place < links.len() {
                links[place]
            } else {
                None
            };
            let cells = player_cells(&team.players[place], link, now);
            rows.push(cells);
            k = k + 1;
        }
    }
    let mut heading = concat(team.name.as_str(), " - score: ");
    heading.append(i64_text(team.score).as_str());
    proof {
        lemma_row_formats();
        lemma_team_rows(*team, row_links(links@), now as int);
        assert(rows_of(rows@) =~= team_rows(*team, row_links(links@), now as int)) by {
            assert forall|r: int| 0 <= r < rows@.len() implies rows_of(rows@)[r] == team_rows(
                *team,
                row_links(links@),
                now as int,
            )[r] by {
                if r > 0 {
                    assert(rows@[1 + (r - 1)] == rows@[r]);
                }
            }
        }
    }
    render_table("{:<}  {:<}  {:<}  {:<}  {:<}  {:<}  {:<}  {:<}", heading.as_str(), &rows)
}

/// Renders the table of every team of the enriched snapshot, with ping and time on the server
/// taken through `links`, for a rendering at the instant `now`.
pub fn team_tables(
    enriched: &SeederPlayerList,
    links: &Vec<Vec<Option<&GamePlayer>>>,
    now: i64,
) -> (teams: Vec<String>)
    ensures
        texts_of(teams@) == team_texts(enriched.teams@, link_values(links@), now as int),
{
    let mut teams: Vec<String> = Vec::new();
    let none: Vec<Option<&GamePlayer>> = Vec::new();
    let mut t: usize = 0;
    while t < enriched.teams.len()
        invariant
            t <= enriched.teams@.len(),
            teams@.len() == t,
            row_links(none@) == Seq::<Option<GamePlayer>>::empty(),
            forall|u: int|
                0 <= u < t ==> (#[trigger] teams@[u])@ == team_text(
                    enriched.teams@[u],
                    links_in(link_values(links@), u),
                    now as int,
                ),
        decreases enriched.teams@.len() - t,
    {
        let row = if t < links.len() {
            &links[t]
        } else {
            &none
        };
        teams.push(team_table(&enriched.teams[t], row, now));
        t = t + 1;
    }
    teams
}

/// Joins the two snapshots and renders the title block and the table of every team of the
/// enriched one, for a rendering at the instant `now`.
pub fn to_tables_at(seeder_result: &SeederPlayerList, result: &PlayerList, now: i64) -> (tables: (
    String,
    Vec<String>,
))
    ensures
        tables.0@ == title_text(*result, Some(*seeder_result), now as int),
        texts_of(tables.1@) == team_texts(
            seeder_result.teams@,
            links_of(*result, *seeder_result),
            now as int,
        ),
{
    let view = merge(result, Some(seeder_result));
    let teams = match &view {
        MergedView::Enriched { links, .. } => team_tables(seeder_result, links, now),
        MergedView::PrimaryOnly { .. } => Vec::new(),
    };
    let title = title_table(result, Some(seeder_result), now);
    (title, teams)
}

/// Joins the two snapshots and renders the title block and the table of every team of the
/// enriched one as of now.
///
/// The instant of rendering is read from the clock, so the tables are those of
/// [`to_tables_at`] for some instant.
pub fn to_tables(seeder_result: &SeederPlayerList, result: &PlayerList) -> (tables: (
    String,
    Vec<String>,
))
    ensures
        exists|now: i64|
            tables.0@ == title_text(*result, Some(*seeder_result), now as int) && texts_of(
                tables.1@,
            ) == #[trigger] team_texts(
                seeder_result.teams@,
                links_of(*result, *seeder_result),
                now as int,
            ),
{
    let now = current_timestamp();
    to_tables_at(seeder_result, result, now)
}

} // verus!
