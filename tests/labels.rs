use bors::labels::{LabelModification, LabelPolicy, LabelTrigger};
use bors::reconcile::{plan_label_calls, LabelCall, ReconcileStep, Reconciliation};

#[derive(Debug, PartialEq)]
enum Recorded {
    Add(Vec<String>),
    Remove(Vec<String>),
}

/// Drives a reconciliation against a client that records each call, and fails the
/// add call or the remove call when asked to.
fn drive(
    policy: &LabelPolicy,
    trigger: LabelTrigger,
    fail_add: bool,
    fail_remove: bool,
) -> (Vec<Recorded>, Result<(), String>) {
    let mut recorded = Vec::new();
    let mut reconciliation = Reconciliation::new(policy, trigger);
    let mut step: ReconcileStep<String> = reconciliation.first_step();
    loop {
        match step {
            ReconcileStep::Issue(LabelCall::Add(labels)) => {
                recorded.push(Recorded::Add(labels));
                let outcome = if fail_add { Err("add failed".to_string()) } else { Ok(()) };
                step = reconciliation.after_call(outcome);
            }
            ReconcileStep::Issue(LabelCall::Remove(labels)) => {
                recorded.push(Recorded::Remove(labels));
                let outcome = if fail_remove { Err("remove failed".to_string()) } else { Ok(()) };
                step = reconciliation.after_call(outcome);
            }
            ReconcileStep::Finish(result) => return (recorded, result),
        }
    }
}

fn add(label: &str) -> LabelModification {
    LabelModification::Add(label.to_string())
}

fn remove(label: &str) -> LabelModification {
    LabelModification::Remove(label.to_string())
}

fn strings(labels: &[&str]) -> Vec<String> {
    labels.iter().map(|l| l.to_string()).collect()
}

fn policy_with(trigger: LabelTrigger, mods: Vec<LabelModification>) -> LabelPolicy {
    let mut policy = LabelPolicy::new();
    policy.insert(trigger, mods);
    policy
}

#[test]
fn build_started_adds_then_removes() {
    let policy = policy_with(
        LabelTrigger::BuildStarted,
        vec![remove("S-waiting-on-review"), add("S-waiting-on-bors")],
    );
    let (calls, result) = drive(&policy, LabelTrigger::BuildStarted, false, false);
    assert_eq!(
        calls,
        vec![
            Recorded::Add(strings(&["S-waiting-on-bors"])),
            Recorded::Remove(strings(&["S-waiting-on-review"])),
        ]
    );
    assert_eq!(result, Ok(()));
}

#[test]
fn unmapped_trigger_issues_no_calls() {
    let policy = policy_with(LabelTrigger::BuildStarted, vec![add("S-waiting-on-bors")]);
    let (calls, result) = drive(&policy, LabelTrigger::Approved, false, false);
    assert!(calls.is_empty());
    assert_eq!(result, Ok(()));

    let (calls, result) = drive(&LabelPolicy::new(), LabelTrigger::BuildFailed, true, true);
    assert!(calls.is_empty());
    assert_eq!(result, Ok(()));
}

#[test]
fn empty_modification_list_issues_no_calls() {
    let policy = policy_with(LabelTrigger::Approved, vec![]);
    assert!(policy.get(LabelTrigger::Approved).is_some());
    let (calls, result) = drive(&policy, LabelTrigger::Approved, false, false);
    assert!(calls.is_empty());
    assert_eq!(result, Ok(()));
}

#[test]
fn additions_only_issue_one_add_call() {
    let policy = policy_with(LabelTrigger::Approved, vec![add("c"), add("a"), add("b")]);
    let (calls, result) = drive(&policy, LabelTrigger::Approved, false, false);
    assert_eq!(calls, vec![Recorded::Add(strings(&["c", "a", "b"]))]);
    assert_eq!(result, Ok(()));
}

#[test]
fn removals_only_issue_one_remove_call() {
    let policy = policy_with(LabelTrigger::Unapproved, vec![remove("z"), remove("y")]);
    let (calls, result) = drive(&policy, LabelTrigger::Unapproved, false, false);
    assert_eq!(calls, vec![Recorded::Remove(strings(&["z", "y"]))]);
    assert_eq!(result, Ok(()));
}

#[test]
fn mixed_modifications_issue_add_then_remove() {
    let policy = policy_with(
        LabelTrigger::BuildFailed,
        vec![remove("r1"), add("a1"), remove("r2"), add("a2"), add("a3")],
    );
    let (calls, result) = drive(&policy, LabelTrigger::BuildFailed, false, false);
    assert_eq!(
        calls,
        vec![
            Recorded::Add(strings(&["a1", "a2", "a3"])),
            Recorded::Remove(strings(&["r1", "r2"])),
        ]
    );
    assert_eq!(result, Ok(()));
}

#[test]
fn same_label_added_and_removed_ends_with_removal() {
    let policy = policy_with(LabelTrigger::BuildSucceeded, vec![remove("x"), add("x")]);
    let (calls, _) = drive(&policy, LabelTrigger::BuildSucceeded, false, false);
    assert_eq!(calls, vec![Recorded::Add(strings(&["x"])), Recorded::Remove(strings(&["x"]))]);
}

#[test]
fn partition_keeps_every_label_once() {
    let mods = vec![add("a"), remove("b"), add("c"), remove("d"), add("a")];
    let policy = policy_with(LabelTrigger::Approved, mods);
    let planned = plan_label_calls(&policy, LabelTrigger::Approved);
    let mut all: Vec<String> = Vec::new();
    for call in planned {
        match call {
            LabelCall::Add(labels) => all.extend(labels),
            LabelCall::Remove(labels) => all.extend(labels),
        }
    }
    let mut sorted = all.clone();
    sorted.sort();
    assert_eq!(all.len(), 5);
    assert_eq!(sorted, strings(&["a", "a", "b", "c", "d"]));
    assert_eq!(all, strings(&["a", "c", "a", "b", "d"]));
}

#[test]
fn failed_add_call_skips_remove_call() {
    let policy = policy_with(LabelTrigger::BuildStarted, vec![remove("r"), add("a")]);
    let (calls, result) = drive(&policy, LabelTrigger::BuildStarted, true, false);
    assert_eq!(calls, vec![Recorded::Add(strings(&["a"]))]);
    assert_eq!(result, Err("add failed".to_string()));
}

#[test]
fn failed_remove_call_keeps_added_labels() {
    let policy = policy_with(LabelTrigger::BuildStarted, vec![remove("r"), add("a")]);
    let (calls, result) = drive(&policy, LabelTrigger::BuildStarted, false, true);
    assert_eq!(calls, vec![Recorded::Add(strings(&["a"])), Recorded::Remove(strings(&["r"]))]);
    assert_eq!(result, Err("remove failed".to_string()));
}

#[test]
fn failed_remove_only_call_is_returned() {
    let policy = policy_with(LabelTrigger::Unapproved, vec![remove("r")]);
    let (calls, result) = drive(&policy, LabelTrigger::Unapproved, true, true);
    assert_eq!(calls, vec![Recorded::Remove(strings(&["r"]))]);
    assert_eq!(result, Err("remove failed".to_string()));
}

#[test]
fn policy_insert_replaces_entry() {
    let mut policy = LabelPolicy::new();
    assert!(policy.get(LabelTrigger::Approved).is_none());
    policy.insert(LabelTrigger::Approved, vec![add("a")]);
    policy.insert(LabelTrigger::BuildFailed, vec![remove("b")]);
    policy.insert(LabelTrigger::Approved, vec![remove("c")]);
    assert_eq!(policy.get(LabelTrigger::Approved), Some(&vec![remove("c")]));
    assert_eq!(policy.get(LabelTrigger::BuildFailed), Some(&vec![remove("b")]));
    assert!(policy.get(LabelTrigger::Unapproved).is_none());
}
