//! The primary snapshot: the player list as the statistics service reports it.

use vstd::prelude::*;

verus! {

/// What the snapshot says of the server itself.
#[derive(Clone, Debug)]
pub struct ServerInfo {
    pub name: String,
    pub description: String,
    pub region: String,
    pub country: String,
    pub level: String,
    pub mode: String,
    pub maps: Option<Vec<String>>,
    pub owner: String,
    pub settings: Option<Vec<String>>,
    pub servertype: String,
}

/// One player of the primary snapshot.
#[derive(Clone, Debug)]
pub struct GamePlayer {
    /// When the player joined, in microseconds since the epoch.
    pub join_time: i64,
    /// The player's latency in milliseconds.
    pub latency: u64,
    pub name: String,
    /// The tag of the player's platoon, empty if there is none.
    pub platoon: String,
    /// The player's identity, by which the snapshots are joined.
    pub player_id: u64,
    pub rank: u64,
    /// The player's place in the team; players are listed by it.
    pub slot: u64,
    pub user_id: u64,
    pub platform: Option<String>,
}

/// One team of the primary snapshot, with its players in the order received.
#[derive(Clone, Debug)]
pub struct GameTeam {
    pub teamid: String,
    pub players: Vec<GamePlayer>,
    pub image: String,
    pub key: String,
    pub name: String,
    pub faction: String,
}

/// The primary snapshot.
#[derive(Clone, Debug)]
pub struct PlayerList {
    pub serverinfo: ServerInfo,
    pub teams: Vec<GameTeam>,
    pub que: Vec<GamePlayer>,
    pub loading: Vec<GamePlayer>,
    /// When the service computed the snapshot, in seconds since the epoch.
    pub update_timestamp: i64,
}

impl PlayerList {
    /// Whether `p` is the place of a player in the team in place `t`.
    pub open spec fn has_player(self, t: int, p: int) -> bool {
        0 <= t < self.teams@.len() && 0 <= p < self.teams@[t].players@.len()
    }

    /// What a snapshot of the service satisfies: no two teams have the same key, and no
    /// player stands in two places.
    pub open spec fn consistent(self) -> bool {
        &&& forall|t: int, u: int|
            0 <= t < u < self.teams@.len() ==> (#[trigger] self.teams@[t]).key@
                != (#[trigger] self.teams@[u]).key@
        &&& forall|t: int, p: int, u: int, q: int|
            self.has_player(t, p) && self.has_player(u, q) && (#[trigger] self.teams@[t].players@[p]).player_id
                == (#[trigger] self.teams@[u].players@[q]).player_id ==> t == u && p == q
    }
}

} // verus!
