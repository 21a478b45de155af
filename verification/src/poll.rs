//! The poll driver's decisions for one cycle: what to fetch next, when to give up, what to
//! render, and what becomes of the liveness timestamp.
//!
//! The primary fetch is tried again once after a failure. The enriched fetch is tried once;
//! whatever goes wrong with it, a stale snapshot included, the cycle goes on with the primary
//! snapshot alone. The driver performs each step and hands back how it went.

use crate::merge::{given, merge};
use crate::paginate::{chunks_of, paginate};
use crate::render::{joined_teams, lemma_join_rendering, render_at};
use crate::source::{accepted, is_stale, FetchError};
use crate::structs::config::Games;
use crate::structs::player_list::PlayerList;
use crate::structs::seeder_player_list::SeederPlayerList;
use crate::text::texts_of;
use crate::to_table::title_text;
use vstd::prelude::*;

verus! {

/// The seconds between the end of one cycle and the start of the next.
pub const POLL_INTERVAL: u64 = 30;

/// Where a cycle stands.
#[derive(Clone, Copy, Debug, PartialEq, Eq, Structural)]
pub enum CyclePhase {
    /// The primary snapshot is being fetched; `retried` tells whether a fetch already failed.
    FetchingPrimary { retried: bool },
    /// The primary snapshot is there and the enriched one is being fetched.
    FetchingEnriched,
    /// The snapshots are settled: render, with the enriched snapshot if `enriched`.
    Ready { enriched: bool },
    /// The primary snapshot could not be had: the cycle is skipped.
    GivenUp { error: FetchError },
}

/// What the driver is to do next.
#[derive(Clone, Copy, Debug, PartialEq, Eq, Structural)]
pub enum CycleStep {
    FetchPrimary,
    FetchEnriched,
    /// Join, render, paginate and publish; join the enriched snapshot only if `enriched`.
    Render { enriched: bool },
    /// Leave the messages as they are and wait for the next cycle.
    Skip,
}

impl CyclePhase {
    /// The phase in which every cycle begins.
    pub open spec fn start() -> CyclePhase {
        CyclePhase::FetchingPrimary { retried: false }
    }

    /// The step that the phase calls for.
    pub open spec fn step(self) -> CycleStep {
        match self {
            CyclePhase::FetchingPrimary { .. } => CycleStep::FetchPrimary,
            CyclePhase::FetchingEnriched => CycleStep::FetchEnriched,
            CyclePhase::Ready { enriched } => CycleStep::Render { enriched },
            CyclePhase::GivenUp { .. } => CycleStep::Skip,
        }
    }

    /// The phase after the pending fetch ended with `outcome`.
    ///
    /// Only the first game has an enriched source. A settled phase stays as it is.
    pub open spec fn after(self, game: Games, outcome: Result<(), FetchError>) -> CyclePhase {
        match self {
            CyclePhase::FetchingPrimary { retried } => match outcome {
                Ok(_) => if game == Games::Bf1 {
                    CyclePhase::FetchingEnriched
                } else {
                    CyclePhase::Ready { enriched: false }
                },
                Err(error) => if retried {
                    CyclePhase::GivenUp { error }
                } else {
                    CyclePhase::FetchingPrimary { retried: true }
                },
            },
            CyclePhase::FetchingEnriched => CyclePhase::Ready { enriched: outcome is Ok },
            CyclePhase::Ready { .. } => self,
            CyclePhase::GivenUp { .. } => self,
        }
    }

    /// The phase after the fetches ended with `outcomes`, one after the other.
    pub open spec fn run(self, game: Games, outcomes: Seq<Result<(), FetchError>>) -> CyclePhase
        decreases outcomes.len(),
    {
        if outcomes.len() == 0 {
            self
        } else {
            self.run(game, outcomes.drop_last()).after(game, outcomes.last())
        }
    }

    /// Whether the cycle got as far as rendering.
    pub open spec fn rendered(self) -> bool {
        self is Ready
    }

    /// Begins a cycle.
    pub fn begin() -> (phase: CyclePhase)
        ensures
            phase == CyclePhase::start(),
    {
        CyclePhase::FetchingPrimary { retried: false }
    }

    /// The step to perform next.
    pub fn next_step(self) -> (step: CycleStep)
        ensures
            step == self.step(),
    {
        match self {
            CyclePhase::FetchingPrimary { .. } => CycleStep::FetchPrimary,
            CyclePhase::FetchingEnriched => CycleStep::FetchEnriched,
            CyclePhase::Ready { enriched } => CycleStep::Render { enriched },
            CyclePhase::GivenUp { .. } => CycleStep::Skip,
        }
    }

    /// Takes the outcome of the pending fetch.
    pub fn advance(self, game: Games, outcome: Result<(), FetchError>) -> (next: CyclePhase)
        ensures
            next == self.after(game, outcome),
    {
        match self {
            CyclePhase::FetchingPrimary { retried } => match outcome {
                Ok(_) => match game {
                    Games::Bf1 => CyclePhase::FetchingEnriched,
                    Games::Bf4 => CyclePhase::Ready { enriched: false },
                },
                Err(error) => if retried {
                    CyclePhase::GivenUp { error }
                } else {
                    CyclePhase::FetchingPrimary { retried: true }
                },
            },
            CyclePhase::FetchingEnriched => CyclePhase::Ready { enriched: outcome.is_ok() },
            CyclePhase::Ready { .. } => self,
            CyclePhase::GivenUp { .. } => self,
        }
    }

    /// Tells whether the cycle got as far as rendering.
    pub fn has_rendered(self) -> (done: bool)
        ensures
            done == self.rendered(),
    {
        match self {
            CyclePhase::Ready { .. } => true,
            _ => false,
        }
    }
}

/// The liveness timestamp after a cycle that began at `cycle_start` and ended in `phase`: the
/// start of the cycle if it got as far as rendering, the previous timestamp otherwise.
pub open spec fn liveness(previous: i64, cycle_start: i64, phase: CyclePhase) -> i64 {
    if phase.rendered() {
        cycle_start
    } else {
        previous
    }
}

/// Computes the liveness timestamp after a cycle.
pub fn liveness_after(previous: i64, cycle_start: i64, phase: CyclePhase) -> (timestamp: i64)
    ensures
        timestamp == liveness(previous, cycle_start, phase),
        !phase.rendered() ==> timestamp == previous,
        phase.rendered() ==> timestamp == cycle_start,
{
    if phase.has_rendered() {
        cycle_start
    } else {
        previous
    }
}

/// The chunks of one cycle: the snapshots joined, rendered at the instant `now` and paginated.
/// There is one chunk for the title and two for every team of the snapshot that drives the
/// rendering.
pub fn prepare(primary: &PlayerList, enriched: Option<&SeederPlayerList>, now: i64) -> (chunks:
    Vec<String>)
    ensures
        chunks@.len() == 1 + 2 * (match enriched {
            Some(list) => list.teams@.len(),
            None => primary.teams@.len(),
        }),
        texts_of(chunks@) == chunks_of(
            title_text(*primary, given(enriched), now as int),
            joined_teams(*primary, given(enriched), now as int),
        ),
{
    let view = merge(primary, enriched);
    let content = render_at(&view, now);
    let chunks = paginate(&content);
    proof {
        lemma_join_rendering(view, *primary, given(enriched), now as int);
    }
    chunks
}

/// The primary source is asked at most twice in a cycle, and a second time only after a
/// failure: after two answers the fetching of the primary snapshot is over, and two failures
/// in a row end the cycle with the second error and nothing to render.
pub proof fn lemma_primary_is_retried_once(
    game: Games,
    first: Result<(), FetchError>,
    second: Result<(), FetchError>,
)
    ensures
        CyclePhase::start().step() == CycleStep::FetchPrimary,
        first is Ok ==> CyclePhase::start().after(game, first).step() != CycleStep::FetchPrimary,
        first is Err ==> CyclePhase::start().after(game, first).step() == CycleStep::FetchPrimary,
        CyclePhase::start().after(game, first).after(game, second).step()
            != CycleStep::FetchPrimary,
        first is Err && second is Err ==> CyclePhase::start().after(game, first).after(
            game,
            second,
        ) == (CyclePhase::GivenUp { error: second->Err_0 }),
{
}

/// The enriched source is asked once and never again, and no failure of it ends the cycle:
/// whatever it answers, the next step is to render, with the enriched snapshot if the fetch
/// succeeded and with the primary snapshot alone if it failed, a stale snapshot included.
pub proof fn lemma_enriched_failure_falls_back(outcome: Result<(), FetchError>, game: Games)
    ensures
        CyclePhase::FetchingEnriched.after(game, outcome).step() == (CycleStep::Render {
            enriched: outcome is Ok,
        }),
        outcome == Err::<(), FetchError>(FetchError::Stale) ==> CyclePhase::FetchingEnriched.after(
            game,
            outcome,
        ).step() == (CycleStep::Render { enriched: false }),
{
}

/// An enriched snapshot that is too old never reaches the renderer: the source client turns it
/// into [`FetchError::Stale`], and on that answer the cycle renders the primary snapshot
/// alone. One that is not too old is handed on as it is and joined.
pub proof fn lemma_stale_snapshot_falls_back(list: SeederPlayerList, now: int, game: Games)
    ensures
        is_stale(list.update_timestamp as int, now) ==> accepted(Ok(list), now) == Err::<
            SeederPlayerList,
            FetchError,
        >(FetchError::Stale) && CyclePhase::FetchingEnriched.after(
            game,
            Err(FetchError::Stale),
        ).step() == (CycleStep::Render { enriched: false }),
        !is_stale(list.update_timestamp as int, now) ==> accepted(Ok(list), now) == Ok::<
            SeederPlayerList,
            FetchError,
        >(list) && CyclePhase::FetchingEnriched.after(game, Ok(())).step() == (CycleStep::Render {
            enriched: true,
        }),
{
}

/// A cycle whose fetches all fail leaves the liveness timestamp as it was; a cycle that gets
/// as far as rendering moves it to the start of the cycle.
pub proof fn lemma_liveness(
    previous: i64,
    cycle_start: i64,
    game: Games,
    outcomes: Seq<Result<(), FetchError>>,
)
    ensures
        ({
            let phase = CyclePhase::start().run(game, outcomes);
            &&& (forall|i: int| 0 <= i < outcomes.len() ==> outcomes[i] is Err) ==> liveness(
                previous,
                cycle_start,
                phase,
            ) == previous
            &&& phase.rendered() ==> liveness(previous, cycle_start, phase) == cycle_start
        }),
{
    if forall|i: int| 0 <= i < outcomes.len() ==> outcomes[i] is Err {
        lemma_failing_run(game, outcomes);
    }
}

proof fn lemma_failing_run(game: Games, outcomes: Seq<Result<(), FetchError>>)
    requires
        forall|i: int| 0 <= i < outcomes.len() ==> outcomes[i] is Err,
    ensures
        !CyclePhase::start().run(game, outcomes).rendered(),
        CyclePhase::start().run(game, outcomes) !is FetchingEnriched,
    decreases outcomes.len(),
{
    if outcomes.len() > 0 {
        lemma_failing_run(game, outcomes.drop_last());
    }
}

} // verus!
