//! The slot reconciler: brings the published messages in line with the chunks of one cycle.
//!
//! The message table holds one handle per slot. Where it has exactly one handle per chunk the
//! messages are edited in place; otherwise it is emptied and every message is created anew.
//! The reconciler only decides: the caller performs each action on the chat platform and hands
//! back what came of it.

use crate::paginate::chunks_of;
use crate::text::{frame, framed, texts_of};
use vstd::prelude::*;

verus! {

/// How a cycle treats the message table.
#[derive(Clone, Copy, Debug, PartialEq, Eq, Structural)]
pub enum ReconcileMode {
    /// The table has one handle per chunk: every message is edited in place.
    Editing,
    /// The table is empty or of another length: it is emptied and every message created anew.
    Recreating,
}

/// What the caller is to do next.
#[derive(Debug, PartialEq, Eq)]
pub enum SlotAction {
    /// Replace the text of the message `handle`, which stands in slot `index`.
    Edit { index: usize, handle: u64, text: String },
    /// Publish a new message for slot `index`.
    Create { index: usize, text: String },
    /// Nothing is left to do; `persist` tells whether the table changed and must be stored.
    Finished { persist: bool },
}

/// A message could not be created, and the cycle was given up at its slot.
#[derive(Clone, Copy, Debug, PartialEq, Eq, Structural)]
pub struct PublishFailure {
    /// The slot whose message the platform refused.
    pub slot: usize,
}

/// A [`SlotAction`] as contracts see it.
pub enum ActionView {
    Edit { index: int, handle: u64, text: Seq<char> },
    Create { index: int, text: Seq<char> },
    Finished { persist: bool },
}

impl View for SlotAction {
    type V = ActionView;

    open spec fn view(&self) -> ActionView {
        match *self {
            SlotAction::Edit { index, handle, text } => ActionView::Edit {
                index: index as int,
                handle,
                text: text@,
            },
            SlotAction::Create { index, text } => ActionView::Create {
                index: index as int,
                text: text@,
            },
            SlotAction::Finished { persist } => ActionView::Finished { persist },
        }
    }
}

/// The state of a reconciliation as contracts see it.
pub struct SlotState {
    /// The mode chosen when the cycle began.
    pub mode: ReconcileMode,
    /// The message table as it stands.
    pub table: Seq<u64>,
    /// The chunks of this cycle, unframed, in slot order.
    pub chunks: Seq<Seq<char>>,
    /// The slot that the next action is for.
    pub cursor: int,
    /// Whether a creation failed and the cycle was given up.
    pub aborted: bool,
}

impl SlotState {
    /// The state in which a cycle begins.
    pub open spec fn start(table: Seq<u64>, chunks: Seq<Seq<char>>) -> SlotState {
        if table.len() == chunks.len() {
            SlotState { mode: ReconcileMode::Editing, table, chunks, cursor: 0, aborted: false }
        } else {
            SlotState {
                mode: ReconcileMode::Recreating,
                table: Seq::empty(),
                chunks,
                cursor: 0,
                aborted: false,
            }
        }
    }

    /// What every reachable state satisfies.
    pub open spec fn wf(self) -> bool {
        &&& 0 <= self.cursor <= self.chunks.len()
        &&& self.mode == ReconcileMode::Editing ==> !self.aborted && self.table.len()
            == self.chunks.len()
        &&& self.mode == ReconcileMode::Recreating && !self.aborted ==> self.table.len()
            == self.cursor
        &&& self.aborted ==> self.table.len() == 0
    }

    /// Whether every slot was dealt with or the cycle was given up.
    pub open spec fn finished(self) -> bool {
        self.aborted || self.cursor >= self.chunks.len()
    }

    /// The action that the state calls for.
    pub open spec fn action(self) -> ActionView {
        if self.finished() {
            ActionView::Finished { persist: self.mode == ReconcileMode::Recreating }
        } else if self.mode == ReconcileMode::Editing {
            ActionView::Edit {
                index: self.cursor,
                handle: self.table[self.cursor],
                text: framed(self.chunks[self.cursor]),
            }
        } else {
            ActionView::Create { index: self.cursor, text: framed(self.chunks[self.cursor]) }
        }
    }

    /// The state after the platform answered the pending action: `Some` with the handle of the
    /// message on success, `None` on failure.
    ///
    /// A failed edit leaves its message stale and goes on. A failed creation gives the cycle up
    /// with an empty table. A finished state stays as it is.
    pub open spec fn after(self, outcome: Option<u64>) -> SlotState {
        if self.finished() {
            self
        } else if self.mode == ReconcileMode::Editing {
            SlotState { cursor: self.cursor + 1, ..self }
        } else {
            match outcome {
                Some(handle) => SlotState {
                    table: self.table.push(handle),
                    cursor: self.cursor + 1,
                    ..self
                },
                None => SlotState { table: Seq::empty(), aborted: true, ..self },
            }
        }
    }

    /// The state after the platform answered `outcomes`, one after the other.
    pub open spec fn run(self, outcomes: Seq<Option<u64>>) -> SlotState
        decreases outcomes.len(),
    {
        if outcomes.len() == 0 {
            self
        } else {
            self.run(outcomes.drop_last()).after(outcomes.last())
        }
    }
}

/// The handles that a run of successful answers delivered, in order.
pub open spec fn handles_of(outcomes: Seq<Option<u64>>) -> Seq<u64> {
    Seq::new(outcomes.len(), |i: int| outcomes[i].unwrap())
}

/// The reconciliation of one cycle.
pub struct SlotReconciler {
    mode: ReconcileMode,
    table: Vec<u64>,
    chunks: Vec<String>,
    cursor: usize,
    aborted: bool,
}

impl View for SlotReconciler {
    type V = SlotState;

    closed spec fn view(&self) -> SlotState {
        SlotState {
            mode: self.mode,
            table: self.table@,
            chunks: texts_of(self.chunks@),
            cursor: self.cursor as int,
            aborted: self.aborted,
        }
    }
}

impl SlotReconciler {
    #[verifier::type_invariant]
    spec fn inv(&self) -> bool {
        self@.wf()
    }

    /// Begins a cycle: compares the table's length with the number of chunks and settles the
    /// mode. In [`ReconcileMode::Recreating`] the table is emptied at once.
    pub fn start(table: Vec<u64>, chunks: Vec<String>) -> (r: SlotReconciler)
        ensures
            r@ == SlotState::start(table@, texts_of(chunks@)),
            r@.wf(),
    {
        if table.len() == chunks.len() {
            SlotReconciler {
                mode: ReconcileMode::Editing,
                table,
                chunks,
                cursor: 0,
                aborted: false,
            }
        } else {
            SlotReconciler {
                mode: ReconcileMode::Recreating,
                table: Vec::new(),
                chunks,
                cursor: 0,
                aborted: false,
            }
        }
    }

    /// The mode that was settled when the cycle began.
    pub fn mode(&self) -> (mode: ReconcileMode)
        ensures
            mode == self@.mode,
    {
        self.mode
    }

    /// Whether nothing is left to do.
    pub fn is_finished(&self) -> (done: bool)
        ensures
            done == self@.finished(),
    {
        self.aborted || self.cursor >= self.chunks.len()
    }

    /// The action to perform next, with the chunk's text in its frame.
    pub fn pending(&self) -> (action: SlotAction)
        ensures
            action@ == self@.action(),
            self@.wf(),
    {
        proof {
            use_type_invariant(self);
        }
        if self.aborted || self.cursor >= self.chunks.len() {
            SlotAction::Finished { persist: self.mode == ReconcileMode::Recreating }
        } else if self.mode == ReconcileMode::Editing {
            SlotAction::Edit {
                index: self.cursor,
                handle: self.table[self.cursor],
                text: frame(self.chunks[self.cursor].as_str()),
            }
        } else {
            SlotAction::Create {
                index: self.cursor,
                text: frame(self.chunks[self.cursor].as_str()),
            }
        }
    }

    /// Takes the platform's answer to the pending action: `Some` with the message's handle on
    /// success, `None` on failure.
    pub fn record(self, outcome: Option<u64>) -> (next: SlotReconciler)
        ensures
            next@ == self@.after(outcome),
            next@.wf(),
    {
        proof {
            use_type_invariant(&self);
        }
        if self.aborted || self.cursor >= self.chunks.len() {
            return self;
        }
        let SlotReconciler { mode, table, chunks, cursor, aborted } = self;
        match mode {
            ReconcileMode::Editing => SlotReconciler {
                mode,
                table,
                chunks,
                cursor: cursor + 1,
                aborted,
            },
            ReconcileMode::Recreating => {
                match outcome {
                    Some(handle) => {
                        let mut table = table;
                        table.push(handle);
                        SlotReconciler { mode, table, chunks, cursor: cursor + 1, aborted }
                    },
                    None => SlotReconciler {
                        mode,
                        table: Vec::new(),
                        chunks,
                        cursor,
                        aborted: true,
                    },
                }
            },
        }
    }

    /// The failure that ended the cycle, if a creation failed.
    pub fn failure(&self) -> (failure: Option<PublishFailure>)
        ensures
            failure is Some == self@.aborted,
            failure matches Some(at) ==> at.slot == self@.cursor,
    {
        if self.aborted {
            Some(PublishFailure { slot: self.cursor })
        } else {
            None
        }
    }

    /// The message table as it stands.
    pub fn table(&self) -> (table: &Vec<u64>)
        ensures
            table@ == self@.table,
    {
        &self.table
    }

    /// Ends the reconciliation and hands the message table back.
    pub fn into_table(self) -> (table: Vec<u64>)
        ensures
            table@ == self@.table,
    {
        self.table
    }
}

/// A run keeps a well-formed state well-formed and never changes the mode or the chunks.
pub proof fn lemma_run_keeps_wf(state: SlotState, outcomes: Seq<Option<u64>>)
    requires
        state.wf(),
    ensures
        state.run(outcomes).wf(),
        state.run(outcomes).mode == state.mode,
        state.run(outcomes).chunks == state.chunks,
    decreases outcomes.len(),
{
    if outcomes.len() > 0 {
        lemma_run_keeps_wf(state, outcomes.drop_last());
    }
}

/// Where the table has one handle per chunk, the reconciler only ever edits: whatever the
/// platform answers, the action after `outcomes` answers is the edit of the next slot's own
/// handle with that slot's framed chunk, until every slot was edited once; the table is never
/// changed and need not be stored.
pub proof fn lemma_matching_table_is_edited(
    table: Seq<u64>,
    chunks: Seq<Seq<char>>,
    outcomes: Seq<Option<u64>>,
)
    requires
        table.len() == chunks.len(),
    ensures
        ({
            let state = SlotState::start(table, chunks).run(outcomes);
            &&& state.mode == ReconcileMode::Editing
            &&& state.table == table
            &&& outcomes.len() < chunks.len() ==> state.action() == (ActionView::Edit {
                index: outcomes.len() as int,
                handle: table[outcomes.len() as int],
                text: framed(chunks[outcomes.len() as int]),
            })
            &&& outcomes.len() >= chunks.len() ==> state.action() == (ActionView::Finished {
                persist: false,
            })
        }),
{
    lemma_editing_run(table, chunks, outcomes);
}

proof fn lemma_editing_run(table: Seq<u64>, chunks: Seq<Seq<char>>, outcomes: Seq<Option<u64>>)
    requires
        table.len() == chunks.len(),
    ensures
        ({
            let state = SlotState::start(table, chunks).run(outcomes);
            &&& state.mode == ReconcileMode::Editing
            &&& state.table == table
            &&& state.chunks == chunks
            &&& !state.aborted
            &&& state.cursor == if outcomes.len() < chunks.len() {
                outcomes.len() as int
            } else {
                chunks.len() as int
            }
        }),
    decreases outcomes.len(),
{
    if outcomes.len() > 0 {
        lemma_editing_run(table, chunks, outcomes.drop_last());
    }
}

/// Where the table's length differs from the number of chunks (an empty table included), the
/// reconciler empties it and creates the messages in slot order: after `outcomes` successful
/// answers the table holds exactly the handles delivered, in order, and the next action is
/// the creation for the next slot; after the last slot the table is to be stored.
pub proof fn lemma_other_table_is_recreated(
    table: Seq<u64>,
    chunks: Seq<Seq<char>>,
    outcomes: Seq<Option<u64>>,
)
    requires
        table.len() != chunks.len(),
        outcomes.len() <= chunks.len(),
        forall|i: int| 0 <= i < outcomes.len() ==> outcomes[i] is Some,
    ensures
        ({
            let state = SlotState::start(table, chunks).run(outcomes);
            &&& SlotState::start(table, chunks).table.len() == 0
            &&& state.mode == ReconcileMode::Recreating
            &&& state.table == handles_of(outcomes)
            &&& outcomes.len() < chunks.len() ==> state.action() == (ActionView::Create {
                index: outcomes.len() as int,
                text: framed(chunks[outcomes.len() as int]),
            })
            &&& outcomes.len() == chunks.len() ==> state.action() == (ActionView::Finished {
                persist: true,
            })
        }),
{
    lemma_creating_run(table, chunks, outcomes);
}

proof fn lemma_creating_run(table: Seq<u64>, chunks: Seq<Seq<char>>, outcomes: Seq<Option<u64>>)
    requires
        table.len() != chunks.len(),
        outcomes.len() <= chunks.len(),
        forall|i: int| 0 <= i < outcomes.len() ==> outcomes[i] is Some,
    ensures
        ({
            let state = SlotState::start(table, chunks).run(outcomes);
            &&& state.mode == ReconcileMode::Recreating
            &&& state.table == handles_of(outcomes)
            &&& state.chunks == chunks
            &&& !state.aborted
            &&& state.cursor == outcomes.len()
        }),
    decreases outcomes.len(),
{
    if outcomes.len() > 0 {
        let earlier = outcomes.drop_last();
        lemma_creating_run(table, chunks, earlier);
    } else {
        assert(handles_of(outcomes) =~= Seq::<u64>::empty());
    }
}

/// Where the messages are created anew and the creation for slot `failed` fails, the cycle ends
/// there with an empty table that is to be stored, whatever was created before and whatever
/// is answered afterwards.
pub proof fn lemma_failed_creation_empties_table(
    table: Seq<u64>,
    chunks: Seq<Seq<char>>,
    outcomes: Seq<Option<u64>>,
    failed: int,
)
    requires
        table.len() != chunks.len(),
        0 <= failed < chunks.len(),
        failed < outcomes.len(),
        outcomes[failed] is None,
        forall|i: int| 0 <= i < failed ==> outcomes[i] is Some,
    ensures
        ({
            let state = SlotState::start(table, chunks).run(outcomes);
            &&& state.table.len() == 0
            &&& state.aborted
            &&& state.cursor == failed
            &&& state.action() == (ActionView::Finished { persist: true })
        }),
    decreases outcomes.len(),
{
    let earlier = outcomes.drop_last();
    if outcomes.len() == failed + 1 {
        lemma_creating_run(table, chunks, earlier);
    } else {
        lemma_failed_creation_empties_table(table, chunks, earlier, failed);
    }
}

/// When a cycle has ended, the table is empty or holds exactly one handle per chunk.
pub proof fn lemma_finished_table_length(
    table: Seq<u64>,
    chunks: Seq<Seq<char>>,
    outcomes: Seq<Option<u64>>,
)
    ensures
        ({
            let state = SlotState::start(table, chunks).run(outcomes);
            state.finished() ==> state.table.len() == 0 || state.table.len() == chunks.len()
        }),
{
    lemma_run_keeps_wf(SlotState::start(table, chunks), outcomes);
}

/// Two cycles in a row with the same number of chunks: if the first found no matching table
/// and every creation succeeded, the second edits exactly the messages that the first
/// created, slot by slot, and creates none.
pub proof fn lemma_next_cycle_edits_what_was_created(
    table: Seq<u64>,
    first: Seq<Seq<char>>,
    created: Seq<Option<u64>>,
    second: Seq<Seq<char>>,
    edited: Seq<Option<u64>>,
)
    requires
        table.len() != first.len(),
        created.len() == first.len(),
        forall|i: int| 0 <= i < created.len() ==> created[i] is Some,
        second.len() == first.len(),
    ensures
        ({
            let left = SlotState::start(table, first).run(created).table;
            let state = SlotState::start(left, second).run(edited);
            &&& left == handles_of(created)
            &&& state.mode == ReconcileMode::Editing
            &&& state.table == left
            &&& edited.len() < second.len() ==> state.action() == (ActionView::Edit {
                index: edited.len() as int,
                handle: created[edited.len() as int]->0,
                text: framed(second[edited.len() as int]),
            })
            &&& edited.len() >= second.len() ==> state.action() == (ActionView::Finished {
                persist: false,
            })
        }),
{
    lemma_creating_run(table, first, created);
    lemma_editing_run(handles_of(created), second, edited);
}

/// The message table keeps its shape from cycle to cycle: when a cycle over the chunks of a
/// title and team bodies has ended, the table is empty or holds one handle for the title and
/// two for every team.
pub proof fn lemma_slot_table_shape(
    table: Seq<u64>,
    title: Seq<char>,
    bodies: Seq<Seq<char>>,
    outcomes: Seq<Option<u64>>,
)
    ensures
        ({
            let state = SlotState::start(table, chunks_of(title, bodies)).run(outcomes);
            state.finished() ==> state.table.len() == 0 || state.table.len() == 1 + 2
                * bodies.len()
        }),
{
    lemma_finished_table_length(table, chunks_of(title, bodies), outcomes);
}

} // verus!
