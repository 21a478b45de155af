//! The detailed server report of the second game: teams with the score of each player.

use vstd::prelude::*;

verus! {

/// One player of the detailed report.
#[derive(Clone, Debug)]
pub struct ScoreServerPlayer {
    pub kills: i64,
    pub deaths: i64,
    pub name: String,
    pub player_id: String,
    pub rank: i64,
    pub role: i64,
    pub score: i64,
    pub squad: i64,
    /// The player's clan tag, empty if there is none.
    pub tag: String,
}

/// One team of the detailed report, with its players in the order received.
#[derive(Clone, Debug)]
pub struct ScoreTeamList {
    pub players: Vec<ScoreServerPlayer>,
    pub teamid: String,
}

/// The detailed report.
#[derive(Clone, Debug)]
pub struct DetailedServerInfo {
    pub prefix: String,
    pub current_map: String,
    pub mode: String,
    pub favorites: String,
    pub teams: Option<Vec<ScoreTeamList>>,
    pub players: Option<Vec<ScoreServerPlayer>>,
}

} // verus!
