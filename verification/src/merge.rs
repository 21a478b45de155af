//! The merger: joins the primary snapshot with the enriched one by player identity.
//!
//! The join only reads. Without an enriched snapshot there is nothing to join and the view is
//! the primary snapshot itself. With one, every player of the enriched snapshot gets a link
//! to the player of the same identity in the primary snapshot, or none if the primary one does
//! not know the player yet.

use crate::structs::player_list::{GamePlayer, GameTeam, PlayerList};
use crate::structs::seeder_player_list::SeederPlayerList;
use std::collections::HashMap;
use vstd::prelude::*;

verus! {

/// The two snapshots side by side, for one rendering.
pub enum MergedView<'a> {
    /// There is no usable enriched snapshot: the primary one is rendered as it is.
    PrimaryOnly { primary: &'a PlayerList },
    /// The enriched snapshot drives the rendering. `links` has, team by team and player by
    /// player of the enriched snapshot, the matching player of the primary one.
    Enriched {
        primary: &'a PlayerList,
        enriched: &'a SeederPlayerList,
        links: Vec<Vec<Option<&'a GamePlayer>>>,
    },
}

/// The last of `players` with the identity `id`.
pub open spec fn found_in_team(players: Seq<GamePlayer>, id: u64) -> Option<GamePlayer>
    decreases players.len(),
{
    if players.len() == 0 {
        None
    } else if players.last().player_id == id {
        Some(players.last())
    } else {
        found_in_team(players.drop_last(), id)
    }
}

/// The player with the identity `id` in `teams`: the last one, should there be several.
pub open spec fn found(teams: Seq<GameTeam>, id: u64) -> Option<GamePlayer>
    decreases teams.len(),
{
    if teams.len() == 0 {
        None
    } else {
        match found_in_team(teams.last().players@, id) {
            Some(player) => Some(player),
            None => found(teams.drop_last(), id),
        }
    }
}

/// The links of a row of players as values.
pub open spec fn row_links(links: Seq<Option<&GamePlayer>>) -> Seq<Option<GamePlayer>> {
    Seq::new(
        links.len(),
        |p: int|
            match links[p] {
                Some(player) => Some(*player),
                None => None,
            },
    )
}

/// The links of a view as values.
pub open spec fn link_values(links: Seq<Vec<Option<&GamePlayer>>>) -> Seq<Seq<Option<GamePlayer>>> {
    Seq::new(links.len(), |t: int| row_links(links[t]@))
}

/// The links that the join gives: for every player of the enriched snapshot the player of the
/// same identity in the primary one.
pub open spec fn links_of(primary: PlayerList, enriched: SeederPlayerList) -> Seq<
    Seq<Option<GamePlayer>>,
> {
    Seq::new(
        enriched.teams@.len(),
        |t: int|
            Seq::new(
                enriched.teams@[t].players@.len(),
                |p: int| found(primary.teams@, enriched.teams@[t].players@[p].player_id),
            ),
    )
}

/// The enriched snapshot that was handed in, if one was.
pub open spec fn given(enriched: Option<&SeederPlayerList>) -> Option<SeederPlayerList> {
    match enriched {
        Some(list) => Some(*list),
        None => None,
    }
}

impl<'a> MergedView<'a> {
    /// Whether the view is the join of `primary` with `enriched`.
    pub open spec fn joins(self, primary: PlayerList, enriched: Option<SeederPlayerList>) -> bool {
        match enriched {
            None => self matches MergedView::PrimaryOnly { primary: own } && *own == primary,
            Some(list) => self matches MergedView::Enriched { primary: own, enriched: other, links }
                && *own == primary && *other == list && link_values(links@) == links_of(
                primary,
                list,
            ),
        }
    }
}

/// A link leads to a player of the primary snapshot with the identity asked for, and there is
/// a link whenever the primary snapshot has such a player.
pub proof fn lemma_found(teams: Seq<GameTeam>, id: u64)
    ensures
        found(teams, id) matches Some(player) ==> player.player_id == id && exists|t: int, p: int|
            0 <= t < teams.len() && 0 <= p < teams[t].players@.len()
                && #[trigger] teams[t].players@[p] == player,
        found(teams, id) is None ==> forall|t: int, p: int|
            0 <= t < teams.len() && 0 <= p < teams[t].players@.len()
                ==> (#[trigger] teams[t].players@[p]).player_id != id,
    decreases teams.len(),
{
    if teams.len() > 0 {
        let last = teams.len() - 1;
        lemma_found_in_team(teams[last].players@, id);
        lemma_found(teams.drop_last(), id);
        match found_in_team(teams.last().players@, id) {
            Some(player) => {},
            None => {
                if let Some(player) = found(teams.drop_last(), id) {
                    let (t, p) = choose|t: int, p: int|
                        0 <= t < teams.drop_last().len() && 0 <= p
                            < teams.drop_last()[t].players@.len()
                            && #[trigger] teams.drop_last()[t].players@[p] == player;
                } else {
                    assert forall|t: int, p: int|
                        0 <= t < teams.len() && 0 <= p < teams[t].players@.len() implies (
                    #[trigger] teams[t].players@[p]).player_id != id by {
                        if t < last {
                            assert(teams.drop_last()[t].players@[p].player_id != id);
                        }
                    }
                }
            },
        }
    }
}

/// In a consistent snapshot every player is found by identity: the link for the identity of
/// the player in place `p` of team `t` leads to that very player.
pub proof fn lemma_found_is_the_player(primary: PlayerList, t: int, p: int)
    requires
        primary.consistent(),
        primary.has_player(t, p),
    ensures
        found(primary.teams@, primary.teams@[t].players@[p].player_id) == Some(
            primary.teams@[t].players@[p],
        ),
{
    let teams = primary.teams@;
    let player = teams[t].players@[p];
    lemma_found(teams, player.player_id);
    match found(teams, player.player_id) {
        Some(other) => {
            let (u, q) = choose|u: int, q: int|
                0 <= u < teams.len() && 0 <= q < teams[u].players@.len()
                    && #[trigger] teams[u].players@[q] == other;
            assert(primary.has_player(u, q));
        },
        None => {
            assert(teams[t].players@[p].player_id != player.player_id);
        },
    }
}

proof fn lemma_found_in_team(players: Seq<GamePlayer>, id: u64)
    ensures
        found_in_team(players, id) matches Some(player) ==> player.player_id == id && exists|
            p: int,
        |
            0 <= p < players.len() && #[trigger] players[p] == player,
        found_in_team(players, id) is None ==> forall|p: int|
            0 <= p < players.len() ==> (#[trigger] players[p]).player_id != id,
    decreases players.len(),
{
    if players.len() > 0 {
        if players.last().player_id == id {
            assert(players[players.len() - 1] == players.last());
        } else {
            lemma_found_in_team(players.drop_last(), id);
            if let Some(player) = found_in_team(players.drop_last(), id) {
                let p = choose|p: int|
                    0 <= p < players.drop_last().len() && #[trigger] players.drop_last()[p]
                        == player;
                assert(players[p] == player);
            } else {
                assert forall|p: int| 0 <= p < players.len() implies (#[trigger] players[p]).player_id
                    != id by {
                    if p < players.len() - 1 {
                        assert(players.drop_last()[p].player_id != id);
                    }
                }
            }
        }
    }
}

/// What the lookup table says of `id`.
pub open spec fn looked_up(map: Map<u64, &GamePlayer>, id: u64) -> Option<GamePlayer> {
    if map.contains_key(id) {
        Some(*map[id])
    } else {
        None
    }
}

/// The player with the identity `id` among the first `t` teams and the first `p` players of
/// the team after them.
pub open spec fn found_so_far(teams: Seq<GameTeam>, t: int, p: int, id: u64) -> Option<GamePlayer> {
    match found_in_team(teams[t].players@.take(p), id) {
        Some(player) => Some(player),
        None => found(teams.take(t), id),
    }
}

/// Builds the lookup table from player identity to player record.
pub fn index_players<'a>(primary: &'a PlayerList) -> (map: HashMap<u64, &'a GamePlayer>)
    ensures
        forall|id: u64| looked_up(map@, id) == found(primary.teams@, id),
{
    broadcast use vstd::std_specs::hash::group_hash_axioms;

    let mut map: HashMap<u64, &'a GamePlayer> = HashMap::new();
    let mut t: usize = 0;
    while t < primary.teams.len()
        invariant
            t <= primary.teams@.len(),
            forall|id: u64| looked_up(map@, id) == found(primary.teams@.take(t as int), id),
        decreases primary.teams@.len() - t,
    {
        let team = &primary.teams[t];
        let mut p: usize = 0;
        proof {
            assert(team.players@.take(0) =~= Seq::<GamePlayer>::empty());
        }
        while p < team.players.len()
            invariant
                t < primary.teams@.len(),
                *team == primary.teams@[t as int],
                p <= team.players@.len(),
                forall|id: u64|
                    looked_up(map@, id) == found_so_far(primary.teams@, t as int, p as int, id),
            decreases team.players@.len() - p,
        {
            let player = &team.players[p];
            proof {
                let before = team.players@.take(p as int);
                let now = team.players@.take(p + 1);
                assert(now.drop_last() =~= before);
            }
            let ghost earlier = map@;
            map.insert(player.player_id, player);
            proof {
                assert forall|id: u64|
                    looked_up(map@, id) == found_so_far(primary.teams@, t as int, p + 1, id) by {
                    assert(looked_up(earlier, id) == found_so_far(
                        primary.teams@,
                        t as int,
                        p as int,
                        id,
                    ));
                }
            }
            p = p + 1;
        }
        proof {
            let upto = primary.teams@.take(t + 1);
            assert(upto.drop_last() =~= primary.teams@.take(t as int));
            assert(team.players@.take(team.players@.len() as int) =~= team.players@);
        }
        t = t + 1;
    }
    proof {
        assert(primary.teams@.take(primary.teams@.len() as int) =~= primary.teams@);
    }
    map
}

/// Joins the primary snapshot with the enriched one, if there is one.
pub fn merge<'a>(primary: &'a PlayerList, enriched: Option<&'a SeederPlayerList>) -> (view:
    MergedView<'a>)
    ensures
        view.joins(*primary, given(enriched)),
{
    broadcast use vstd::std_specs::hash::group_hash_axioms;

    match enriched {
        None => MergedView::PrimaryOnly { primary },
        Some(list) => {
            let map = index_players(primary);
            let mut links: Vec<Vec<Option<&'a GamePlayer>>> = Vec::new();
            let mut t: usize = 0;
            while t < list.teams.len()
                invariant
                    t <= list.teams@.len(),
                    links@.len() == t,
                    forall|id: u64| looked_up(map@, id) == found(primary.teams@, id),
                    forall|u: int|
                        0 <= u < t ==> row_links((#[trigger] links@[u])@) == links_of(
                            *primary,
                            *list,
                        )[u],
                decreases list.teams@.len() - t,
            {
                let players = &list.teams[t].players;
                let mut row: Vec<Option<&'a GamePlayer>> = Vec::new();
                let mut p: usize = 0;
                while p < players.len()
                    invariant
                        p <= players@.len(),
                        row@.len() == p,
                        forall|id: u64| looked_up(map@, id) == found(primary.teams@, id),
                        forall|q: int|
                            0 <= q < p ==> row_links(row@)[q] == found(
                                primary.teams@,
                                players@[q].player_id,
                            ),
                    decreases players@.len() - p,
                {
                    let id = players[p].player_id;
                    let link: Option<&'a GamePlayer> = match map.get(&id) {
                        Some(player) => Some(*player),
                        None => None,
                    };
                    let ghost earlier = row@;
                    row.push(link);
                    proof {
                        assert(looked_up(map@, id) == found(primary.teams@, id));
                        assert forall|q: int| 0 <= q < p + 1 implies row_links(row@)[q] == found(
                            primary.teams@,
                            players@[q].player_id,
                        ) by {
                            if q < p {
                                assert(row_links(earlier)[q] == row_links(row@)[q]);
                            }
                        }
                    }
                    p = p + 1;
                }
                links.push(row);
                t = t + 1;
            }
            assert(link_values(links@) =~= links_of(*primary, *list));
            MergedView::Enriched { primary, enriched: list, links }
        },
    }
}

} // verus!
