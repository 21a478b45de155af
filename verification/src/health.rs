//! The liveness probe's answer: how many minutes ago the poll loop last rendered, and whether
//! that is still healthy.

use crate::text::{i64_text, int_text};
use vstd::prelude::*;

verus! {

/// The number of whole minutes without an update from which on the loop counts as stalled.
pub const STALL_MINUTES: i64 = 5;

/// What the probe answers.
#[derive(Debug, PartialEq, Eq)]
pub struct HealthReport {
    /// Whether the loop is alive: fewer than five whole minutes have gone by.
    pub healthy: bool,
    /// The whole minutes gone by since the last update, in decimal.
    pub body: String,
}

/// The whole minutes gone by at `now` since `last_update`, both in seconds since the epoch;
/// a part of a minute does not count.
pub open spec fn elapsed_minutes(last_update: int, now: int) -> int {
    if now >= last_update {
        (now - last_update) / 60
    } else {
        -((last_update - now) / 60)
    }
}

/// Answers the probe at `now` for a loop that last rendered at `last_update`, both in seconds
/// since the epoch: healthy below five whole minutes, stalled from five on.
pub fn probe(last_update: i64, now: i64) -> (report: HealthReport)
    ensures
        report.healthy == (elapsed_minutes(last_update as int, now as int) < STALL_MINUTES),
        report.body@ == int_text(elapsed_minutes(last_update as int, now as int)),
{
    let elapsed: i128 = if now >= last_update {
        (now as i128 - last_update as i128) / 60
    } else {
        -((last_update as i128 - now as i128) / 60)
    };
    let minutes = elapsed as i64;
    HealthReport { healthy: minutes < STALL_MINUTES, body: i64_text(minutes) }
}

} // verus!
