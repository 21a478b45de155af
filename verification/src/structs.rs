//! Plain data: the configuration and the snapshots delivered by the statistics sources.

pub mod bf4_player_list;
pub mod config;
pub mod player_list;
pub mod seeder_player_list;
