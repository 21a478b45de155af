use discord_playerlist::reconcile::{PublishFailure, ReconcileMode, SlotAction, SlotReconciler};

fn chunks(n: usize) -> Vec<String> {
    (0..n).map(|i| format!("chunk {}", i)).collect()
}

/// Plays a whole reconciliation against a platform that answers with `outcomes` in turn and
/// returns every action issued, the last one included, and the table left behind.
fn play(table: Vec<u64>, chunks: Vec<String>, outcomes: &[Option<u64>]) -> (Vec<SlotAction>, Vec<u64>) {
    let mut reconciler = SlotReconciler::start(table, chunks);
    let mut actions = Vec::new();
    let mut answers = outcomes.iter();
    loop {
        let action = reconciler.pending();
        let done = matches!(action, SlotAction::Finished { .. });
        actions.push(action);
        if done {
            break;
        }
        let outcome = *answers.next().expect("the platform ran out of answers");
        reconciler = reconciler.record(outcome);
    }
    assert!(reconciler.is_finished());
    (actions, reconciler.into_table())
}

#[test]
fn matching_table_is_edited_in_place() {
    let (actions, table) = play(vec![11, 12, 13], chunks(3), &[Some(11), Some(12), Some(13)]);
    assert_eq!(
        actions,
        vec![
            SlotAction::Edit { index: 0, handle: 11, text: "```\nchunk 0\n```".to_string() },
            SlotAction::Edit { index: 1, handle: 12, text: "```\nchunk 1\n```".to_string() },
            SlotAction::Edit { index: 2, handle: 13, text: "```\nchunk 2\n```".to_string() },
            SlotAction::Finished { persist: false },
        ]
    );
    assert_eq!(table, vec![11, 12, 13]);
}

#[test]
fn mode_follows_the_lengths() {
    assert_eq!(SlotReconciler::start(vec![1, 2, 3], chunks(3)).mode(), ReconcileMode::Editing);
    assert_eq!(SlotReconciler::start(vec![], chunks(3)).mode(), ReconcileMode::Recreating);
    assert_eq!(SlotReconciler::start(vec![1, 2], chunks(3)).mode(), ReconcileMode::Recreating);
    assert_eq!(SlotReconciler::start(vec![1, 2, 3, 4], chunks(3)).mode(), ReconcileMode::Recreating);
    assert_eq!(SlotReconciler::start(vec![], chunks(0)).mode(), ReconcileMode::Editing);
}

#[test]
fn failed_edit_does_not_stop_the_cycle() {
    let (actions, table) = play(vec![11, 12, 13], chunks(3), &[None, Some(12), None]);
    assert_eq!(actions.len(), 4);
    assert!(matches!(actions[1], SlotAction::Edit { index: 1, handle: 12, .. }));
    assert!(matches!(actions[2], SlotAction::Edit { index: 2, handle: 13, .. }));
    assert_eq!(actions[3], SlotAction::Finished { persist: false });
    assert_eq!(table, vec![11, 12, 13]);
}

#[test]
fn edit_keeps_the_handles_whatever_the_platform_returns() {
    let (_, table) = play(vec![11, 12], chunks(2), &[Some(99), Some(98)]);
    assert_eq!(table, vec![11, 12]);
}

#[test]
fn empty_table_is_filled_in_slot_order() {
    let (actions, table) = play(vec![], chunks(3), &[Some(31), Some(32), Some(33)]);
    assert_eq!(
        actions,
        vec![
            SlotAction::Create { index: 0, text: "```\nchunk 0\n```".to_string() },
            SlotAction::Create { index: 1, text: "```\nchunk 1\n```".to_string() },
            SlotAction::Create { index: 2, text: "```\nchunk 2\n```".to_string() },
            SlotAction::Finished { persist: true },
        ]
    );
    assert_eq!(table, vec![31, 32, 33]);
}

#[test]
fn table_of_another_length_is_replaced() {
    let (actions, table) = play(vec![1, 2, 3, 4, 5], chunks(3), &[Some(7), Some(8), Some(9)]);
    assert!(actions[..3].iter().all(|a| matches!(a, SlotAction::Create { .. })));
    assert_eq!(actions[3], SlotAction::Finished { persist: true });
    assert_eq!(table, vec![7, 8, 9]);
    let (actions, table) = play(vec![1, 2], chunks(3), &[Some(7), Some(8), Some(9)]);
    assert!(actions[..3].iter().all(|a| matches!(a, SlotAction::Create { .. })));
    assert_eq!(table, vec![7, 8, 9]);
}

#[test]
fn recreating_empties_the_table_at_once() {
    let reconciler = SlotReconciler::start(vec![1, 2, 3, 4, 5], chunks(3));
    assert!(reconciler.table().is_empty());
}

#[test]
fn failed_creation_empties_the_table() {
    for failing in 0..5usize {
        let mut outcomes: Vec<Option<u64>> = (0..failing).map(|i| Some(100 + i as u64)).collect();
        outcomes.push(None);
        let (actions, table) = play(vec![], chunks(5), &outcomes);
        assert_eq!(actions.len(), failing + 2);
        for (index, action) in actions[..failing + 1].iter().enumerate() {
            assert!(matches!(action, SlotAction::Create { index: i, .. } if *i == index));
        }
        assert_eq!(actions[failing + 1], SlotAction::Finished { persist: true });
        assert_eq!(table, Vec::<u64>::new());
    }
}

#[test]
fn finished_reconciler_ignores_further_answers() {
    let mut reconciler = SlotReconciler::start(vec![], chunks(2));
    reconciler = reconciler.record(None);
    assert!(reconciler.is_finished());
    reconciler = reconciler.record(Some(5));
    assert!(reconciler.is_finished());
    assert!(reconciler.table().is_empty());
    assert_eq!(reconciler.pending(), SlotAction::Finished { persist: true });
}

#[test]
fn nothing_to_publish_finishes_at_once() {
    let (actions, table) = play(vec![], vec![], &[]);
    assert_eq!(actions, vec![SlotAction::Finished { persist: false }]);
    assert!(table.is_empty());
    let (actions, table) = play(vec![4, 5], vec![], &[]);
    assert_eq!(actions, vec![SlotAction::Finished { persist: true }]);
    assert!(table.is_empty());
}

#[test]
fn after_team_count_changes_the_next_cycle_recreates() {
    let (_, table) = play(vec![], chunks(5), &[Some(1), Some(2), Some(3), Some(4), Some(5)]);
    assert_eq!(table.len(), 5);
    let next = SlotReconciler::start(table.clone(), chunks(7));
    assert_eq!(next.mode(), ReconcileMode::Recreating);
    let same = SlotReconciler::start(table, chunks(5));
    assert_eq!(same.mode(), ReconcileMode::Editing);
}

#[test]
fn failure_names_the_slot_that_was_refused() {
    let mut reconciler = SlotReconciler::start(vec![], chunks(4));
    assert_eq!(reconciler.failure(), None);
    reconciler = reconciler.record(Some(1));
    reconciler = reconciler.record(Some(2));
    assert_eq!(reconciler.failure(), None);
    reconciler = reconciler.record(None);
    assert_eq!(reconciler.failure(), Some(PublishFailure { slot: 2 }));
    assert!(reconciler.is_finished());
}

#[test]
fn failed_edit_is_no_failure_of_the_cycle() {
    let mut reconciler = SlotReconciler::start(vec![7, 8], chunks(2));
    reconciler = reconciler.record(None);
    reconciler = reconciler.record(None);
    assert!(reconciler.is_finished());
    assert_eq!(reconciler.failure(), None);
    assert_eq!(reconciler.table(), &vec![7, 8]);
}
