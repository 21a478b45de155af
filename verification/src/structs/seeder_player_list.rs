//! The enriched snapshot: richer records of the same players, from a source that is
//! refreshed more often and may be out of date or missing.

use vstd::prelude::*;

verus! {

/// What the enriched snapshot says of the server itself.
#[derive(Clone, Debug)]
pub struct SeederServerInfo {
    pub country: String,
    pub description: String,
    pub level: String,
    pub maps: Option<Vec<String>>,
    pub mode: String,
    pub name: String,
    pub owner: String,
    pub region: String,
    pub servertype: String,
    pub settings: Option<Vec<String>>,
}

/// A weapon, gadget or vehicle.
#[derive(Clone, Debug)]
pub struct SeederGameItem {
    pub id: Option<String>,
    pub name: Option<String>,
    pub short_name: Option<String>,
    pub image: Option<String>,
    pub _type: Option<String>,
    pub subtype: Option<String>,
    pub class: Option<String>,
}

/// One line of the in-game chat.
#[derive(Clone, Debug)]
pub struct SeederIngameChat {
    pub timestamp: String,
    pub sender: String,
    pub content: String,
}

/// The platoon of a player; all three texts are empty if there is none.
#[derive(Clone, Debug)]
pub struct SeederPlayerPlatoon {
    pub tag: String,
    pub name: String,
    pub icon: String,
}

/// The icons of a player class.
#[derive(Clone, Debug)]
pub struct ClassIcons {
    pub id: Option<String>,
    pub black: Option<String>,
    pub white: Option<String>,
}

/// The class a player plays.
#[derive(Clone, Debug)]
pub struct SeederPlayerClass {
    pub class_id: String,
    pub class_name: Option<String>,
    pub class_kit: Option<String>,
    pub class_info1: Option<String>,
    pub class_info2: Option<String>,
    pub class_icons: Option<ClassIcons>,
}

/// One player of the enriched snapshot.
#[derive(Clone, Debug)]
pub struct SeederServerPlayer {
    /// The player's place in the team; players are listed by it.
    pub index: u64,
    pub team_id: u64,
    pub mark: u64,
    pub platoon: SeederPlayerPlatoon,
    pub squad_id: u64,
    pub squad_name: String,
    pub rank: u64,
    pub name: String,
    /// The player's identity, by which the snapshots are joined.
    pub player_id: u64,
    pub kills: u64,
    pub deaths: u64,
    pub score: u64,
    pub player_class: SeederPlayerClass,
    pub spectator: u64,
    pub vehicle: SeederGameItem,
    pub weapons: Vec<SeederGameItem>,
}

/// One team of the enriched snapshot, with its players in the order received.
#[derive(Clone, Debug)]
pub struct SeederServerTeam {
    pub teamid: String,
    pub players: Vec<SeederServerPlayer>,
    pub image: String,
    pub key: String,
    pub name: String,
    pub faction: String,
    pub score: i64,
    pub score_from_kills: i64,
    pub score_from_flags: i64,
}

/// The enriched snapshot.
#[derive(Clone, Debug)]
pub struct SeederPlayerList {
    pub _id: String,
    pub game_id: i64,
    pub ingame_chat: Vec<SeederIngameChat>,
    pub serverinfo: SeederServerInfo,
    pub teams: Vec<SeederServerTeam>,
    pub time_stamp: String,
    /// When the source computed the snapshot, in seconds since the epoch.
    pub update_timestamp: i64,
}

} // verus!
