use vstd::prelude::*;
use crate::labels::{
    is_addition, is_removal, labels_of, labels_to_add, labels_to_remove, label_seq,
    lemma_groups_push, partition_by_side, LabelModification, LabelPolicy,
    LabelTrigger,
};

verus! {

/// One call to the platform that reconciliation issues: add or remove a set of labels.
pub enum LabelCall {
    Add(Vec<String>),
    Remove(Vec<String>),
}

/// The labels of a call, and whether it adds or removes them.
pub enum LabelCallModel {
    Add(Seq<Seq<char>>),
    Remove(Seq<Seq<char>>),
}

impl View for LabelCall {
    type V = LabelCallModel;

    open spec fn view(&self) -> LabelCallModel {
        match self {
            LabelCall::Add(labels) => LabelCallModel::Add(label_seq(labels@)),
            LabelCall::Remove(labels) => LabelCallModel::Remove(label_seq(labels@)),
        }
    }
}

/// The models of a list of calls.
pub open spec fn call_models(calls: Seq<LabelCall>) -> Seq<LabelCallModel> {
    calls.map_values(|c: LabelCall| c@)
}

/// The calls that a list of modifications asks for: one call with every label to add, if
/// there is any, then one call with every label to remove, if there is any.
pub open spec fn planned_calls(mods: Seq<LabelModification>) -> Seq<LabelCallModel> {
    let add = labels_to_add(mods);
    let remove = labels_to_remove(mods);
    (if add.len() > 0 {
        seq![LabelCallModel::Add(add)]
    } else {
        Seq::empty()
    }) + (if remove.len() > 0 {
        seq![LabelCallModel::Remove(remove)]
    } else {
        Seq::empty()
    })
}

/// The calls that `trigger` asks for under `policy`; none where the policy does not map it.
pub open spec fn calls_for_trigger(
    policy: Map<LabelTrigger, Seq<LabelModification>>,
    trigger: LabelTrigger,
) -> Seq<LabelCallModel> {
    if policy.contains_key(trigger) {
        planned_calls(policy[trigger])
    } else {
        Seq::empty()
    }
}

/// Computes the calls that `trigger` asks for under `policy`, in the order they are to be
/// issued.
pub fn plan_label_calls(policy: &LabelPolicy, trigger: LabelTrigger) -> (r: Vec<LabelCall>)
    requires
        policy.wf(),
    ensures
        call_models(r@) == calls_for_trigger(policy@, trigger),
{
    let mut calls: Vec<LabelCall> = Vec::new();
    match policy.get(trigger) {
        None => {},
        Some(mods) => {
            let (add, remove) = partition_by_side(mods);
            assert(label_seq(add@).len() == add@.len());
            assert(label_seq(remove@).len() == remove@.len());
            if add.len() > 0 {
                calls.push(LabelCall::Add(add));
            }
            if remove.len() > 0 {
                calls.push(LabelCall::Remove(remove));
            }
            assert(call_models(calls@) =~= planned_calls(mods@));
        },
    }
    assert(call_models(calls@) =~= calls_for_trigger(policy@, trigger));
    calls
}

/// What reconciliation asks its driver to do next.
pub enum ReconcileStep<E> {
    /// Issue this call, then report its outcome.
    Issue(LabelCall),
    /// Stop; this is the result of the whole reconciliation.
    Finish(Result<(), E>),
}

/// The step taken from `before`, the calls still to issue, leaving `after`: the first call
/// is issued, or, with none left, reconciliation succeeds.
pub open spec fn issue_next<E>(
    before: Seq<LabelCallModel>,
    after: Seq<LabelCallModel>,
    step: ReconcileStep<E>,
) -> bool {
    if before.len() == 0 {
        after == before && step == ReconcileStep::<E>::Finish(Ok(()))
    } else {
        after == before.drop_first() && match step {
            ReconcileStep::Issue(c) => c@ == before[0],
            ReconcileStep::Finish(_) => false,
        }
    }
}

/// Applying one trigger's label policy to one pull request, as a sequence of steps. The
/// driver issues each call it is handed and reports the outcome, until it is told to
/// finish.
pub struct Reconciliation {
    pending: Vec<LabelCall>,
}

impl Reconciliation {
    /// The calls not issued yet, in order.
    pub closed spec fn pending(&self) -> Seq<LabelCallModel> {
        call_models(self.pending@)
    }

    pub fn new(policy: &LabelPolicy, trigger: LabelTrigger) -> (r: Reconciliation)
        requires
            policy.wf(),
        ensures
            r.pending() == calls_for_trigger(policy@, trigger),
    {
        Reconciliation { pending: plan_label_calls(policy, trigger) }
    }

    fn next_step<E>(&mut self) -> (r: ReconcileStep<E>)
        ensures
            issue_next(old(self).pending(), final(self).pending(), r),
    {
        if self.pending.len() == 0 {
            ReconcileStep::Finish(Ok(()))
        } else {
            let call = self.pending.remove(0);
            assert(self.pending() =~= old(self).pending().drop_first());
            ReconcileStep::Issue(call)
        }
    }

    /// The first step, before any call has been issued.
    pub fn first_step<E>(&mut self) -> (r: ReconcileStep<E>)
        ensures
            issue_next(old(self).pending(), final(self).pending(), r),
    {
        self.next_step()
    }

    /// The step after the last issued call ended with `outcome`. A failed call ends
    /// reconciliation with its error, and no call after it is issued.
    pub fn after_call<E>(&mut self, outcome: Result<(), E>) -> (r: ReconcileStep<E>)
        ensures
            match outcome {
                Ok(_) => issue_next(old(self).pending(), final(self).pending(), r),
                Err(e) => r == ReconcileStep::<E>::Finish(Err(e)) && final(self).pending()
                    == Seq::<LabelCallModel>::empty(),
            },
    {
        match outcome {
            Ok(()) => self.next_step(),
            Err(e) => {
                self.pending = Vec::new();
                assert(self.pending() =~= Seq::<LabelCallModel>::empty());
                ReconcileStep::Finish(Err(e))
            },
        }
    }
}

/// Splitting modifications into the labels to add and the labels to remove is total: each
/// modification's label lands in exactly one of the two groups, so together they hold the
/// original labels, each as often as it is listed.
pub proof fn partition_is_total(mods: Seq<LabelModification>)
    ensures
        labels_to_add(mods).len() + labels_to_remove(mods).len() == mods.len(),
        labels_to_add(mods).to_multiset().add(labels_to_remove(mods).to_multiset())
            == labels_of(mods).to_multiset(),
    decreases mods.len(),
{
    broadcast use vstd::seq_lib::group_to_multiset_ensures;
    if mods.len() == 0 {
        reveal(Seq::filter);
        assert(labels_to_add(mods) =~= Seq::<Seq<char>>::empty());
        assert(labels_to_remove(mods) =~= Seq::<Seq<char>>::empty());
        assert(labels_of(mods) =~= Seq::<Seq<char>>::empty());
        assert(labels_to_add(mods).to_multiset().add(labels_to_remove(mods).to_multiset())
            =~= labels_of(mods).to_multiset());
    } else {
        let init = mods.drop_last();
        let m = mods.last();
        assert(init.push(m) =~= mods);
        partition_is_total(init);
        lemma_groups_push(init, m);
        assert(labels_to_add(mods).to_multiset().add(labels_to_remove(mods).to_multiset())
            =~= labels_of(mods).to_multiset());
    }
}

/// Where every modification is of one kind, its group holds every label in order and the
/// other group is empty.
proof fn lemma_single_kind(mods: Seq<LabelModification>)
    ensures
        (forall|i: int| 0 <= i < mods.len() ==> is_addition(#[trigger] mods[i])) ==> (
        labels_to_add(mods) == labels_of(mods) && labels_to_remove(mods) == Seq::<
            Seq<char>,
        >::empty()),
        (forall|i: int| 0 <= i < mods.len() ==> is_removal(#[trigger] mods[i])) ==> (
        labels_to_remove(mods) == labels_of(mods) && labels_to_add(mods) == Seq::<
            Seq<char>,
        >::empty()),
    decreases mods.len(),
{
    if mods.len() == 0 {
        reveal(Seq::filter);
        assert(labels_of(mods) =~= Seq::<Seq<char>>::empty());
    } else {
        let init = mods.drop_last();
        let m = mods.last();
        assert(init.push(m) =~= mods);
        lemma_single_kind(init);
        lemma_groups_push(init, m);
        assert forall|i: int| 0 <= i < init.len() implies #[trigger] init[i] == mods[i] by {}
    }
}

/// A group holds a label from every modification of its kind.
proof fn lemma_group_nonempty(mods: Seq<LabelModification>, i: int)
    requires
        0 <= i < mods.len(),
    ensures
        is_addition(mods[i]) ==> labels_to_add(mods).len() > 0,
        is_removal(mods[i]) ==> labels_to_remove(mods).len() > 0,
    decreases mods.len(),
{
    let init = mods.drop_last();
    let m = mods.last();
    assert(init.push(m) =~= mods);
    lemma_groups_push(init, m);
    if i < mods.len() - 1 {
        lemma_group_nonempty(init, i);
        assert(init[i] == mods[i]);
    }
}

/// A trigger that the policy does not map asks for no call.
pub proof fn unmapped_trigger_issues_no_calls(
    policy: Map<LabelTrigger, Seq<LabelModification>>,
    trigger: LabelTrigger,
)
    requires
        !policy.contains_key(trigger),
    ensures
        calls_for_trigger(policy, trigger) == Seq::<LabelCallModel>::empty(),
{
}

/// A trigger mapped to additions only asks for one call, which adds every label in the
/// order listed.
pub proof fn additions_only_issue_one_add_call(
    policy: Map<LabelTrigger, Seq<LabelModification>>,
    trigger: LabelTrigger,
)
    requires
        policy.contains_key(trigger),
        policy[trigger].len() > 0,
        forall|i: int| 0 <= i < policy[trigger].len() ==> is_addition(#[trigger] policy[trigger][i]),
    ensures
        calls_for_trigger(policy, trigger) == seq![LabelCallModel::Add(labels_of(policy[trigger]))],
{
    let mods = policy[trigger];
    lemma_single_kind(mods);
    lemma_group_nonempty(mods, 0);
    assert(planned_calls(mods) =~= seq![LabelCallModel::Add(labels_of(mods))]);
}

/// A trigger mapped to removals only asks for one call, which removes every label in the
/// order listed.
pub proof fn removals_only_issue_one_remove_call(
    policy: Map<LabelTrigger, Seq<LabelModification>>,
    trigger: LabelTrigger,
)
    requires
        policy.contains_key(trigger),
        policy[trigger].len() > 0,
        forall|i: int| 0 <= i < policy[trigger].len() ==> is_removal(#[trigger] policy[trigger][i]),
    ensures
        calls_for_trigger(policy, trigger) == seq![
            LabelCallModel::Remove(labels_of(policy[trigger])),
        ],
{
    let mods = policy[trigger];
    lemma_single_kind(mods);
    lemma_group_nonempty(mods, 0);
    assert(planned_calls(mods) =~= seq![LabelCallModel::Remove(labels_of(mods))]);
}

/// A trigger mapped to both kinds asks for two calls: first one that adds the labels to
/// add, then one that removes the labels to remove, each group in the order listed.
pub proof fn mixed_modifications_issue_add_then_remove(
    policy: Map<LabelTrigger, Seq<LabelModification>>,
    trigger: LabelTrigger,
    i: int,
    j: int,
)
    requires
        policy.contains_key(trigger),
        0 <= i < policy[trigger].len(),
        0 <= j < policy[trigger].len(),
        is_addition(policy[trigger][i]),
        is_removal(policy[trigger][j]),
    ensures
        calls_for_trigger(policy, trigger) == seq![
            LabelCallModel::Add(labels_to_add(policy[trigger])),
            LabelCallModel::Remove(labels_to_remove(policy[trigger])),
        ],
{
    let mods = policy[trigger];
    lemma_group_nonempty(mods, i);
    lemma_group_nonempty(mods, j);
    assert(planned_calls(mods) =~= seq![
        LabelCallModel::Add(labels_to_add(mods)),
        LabelCallModel::Remove(labels_to_remove(mods)),
    ]);
}

} // verus!
