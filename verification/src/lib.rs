//! Keeps a fixed set of chat messages in step with the state of a game server.
//!
//! Every cycle two snapshots of the server are joined ([`merge`]), rendered as text tables
//! ([`render`], [`to_table`]), cut into one chunk per message slot ([`paginate`]) and brought
//! onto the messages published before ([`reconcile`]). [`poll`] holds the decisions of a
//! cycle, [`source`] the rules of fetching, [`health`] the answer of the liveness probe.
//!
//! Nothing here talks to the network or the disk: the caller fetches, publishes and stores,
//! and hands the library plain values.

pub mod clock;
pub mod health;
pub mod merge;
pub mod order;
pub mod paginate;
pub mod poll;
pub mod reconcile;
pub mod render;
pub mod source;
pub mod structs;
pub mod table;
pub mod text;
pub mod to_table;
