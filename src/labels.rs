use vstd::prelude::*;
use itertools::Either;
use itertools::Itertools;

verus! {

/// A named reason for applying label policy to a pull request.
#[derive(Clone, Copy, Debug, PartialEq, Eq, Hash, Structural)]
pub enum LabelTrigger {
    Approved,
    Unapproved,
    BuildStarted,
    BuildSucceeded,
    BuildFailed,
}

/// One declarative instruction: add or remove a single label.
#[derive(Clone, Debug, PartialEq, Eq, Hash)]
pub enum LabelModification {
    Add(String),
    Remove(String),
}

impl LabelModification {
    /// The label that the instruction names.
    pub open spec fn label(self) -> Seq<char> {
        match self {
            LabelModification::Add(l) => l@,
            LabelModification::Remove(l) => l@,
        }
    }
}

/// The labels of a list of label strings.
pub open spec fn label_seq(labels: Seq<String>) -> Seq<Seq<char>> {
    labels.map_values(|s: String| s@)
}

/// The labels that `mods` names, in order.
pub open spec fn labels_of(mods: Seq<LabelModification>) -> Seq<Seq<char>> {
    mods.map_values(|m: LabelModification| m.label())
}

pub open spec fn is_addition(m: LabelModification) -> bool {
    m is Add
}

pub open spec fn is_removal(m: LabelModification) -> bool {
    m is Remove
}

/// The labels that `mods` adds, in the order in which they are listed.
pub open spec fn labels_to_add(mods: Seq<LabelModification>) -> Seq<Seq<char>> {
    labels_of(mods.filter(|m: LabelModification| is_addition(m)))
}

/// The labels that `mods` removes, in the order in which they are listed.
pub open spec fn labels_to_remove(mods: Seq<LabelModification>) -> Seq<Seq<char>> {
    labels_of(mods.filter(|m: LabelModification| is_removal(m)))
}

/// Appending a modification appends its label to the group it belongs to.
pub proof fn lemma_groups_push(mods: Seq<LabelModification>, m: LabelModification)
    ensures
        labels_to_add(mods.push(m)) == if is_addition(m) {
            labels_to_add(mods).push(m.label())
        } else {
            labels_to_add(mods)
        },
        labels_to_remove(mods.push(m)) == if is_removal(m) {
            labels_to_remove(mods).push(m.label())
        } else {
            labels_to_remove(mods)
        },
        labels_of(mods.push(m)) == labels_of(mods).push(m.label()),
{
    reveal(Seq::filter);
    assert(mods.push(m).drop_last() =~= mods);
    let pa = |x: LabelModification| is_addition(x);
    let pr = |x: LabelModification| is_removal(x);
    assert(labels_of(mods.filter(pa).push(m)) =~= labels_of(mods.filter(pa)).push(m.label()));
    assert(labels_of(mods.filter(pr).push(m)) =~= labels_of(mods.filter(pr)).push(m.label()));
    assert(labels_of(mods.push(m)) =~= labels_of(mods).push(m.label()));
}

/// `Either` of itertools: which side `partition_map` sends an item to.
#[verifier::external_type_specification]
#[verifier::reject_recursive_types(L)]
#[verifier::reject_recursive_types(R)]
pub struct ExEither<L, R>(Either<L, R>);

/// Sends an added label to the left and a removed one to the right.
pub fn side_of(m: &LabelModification) -> (r: Either<String, String>)
    ensures
        match *m {
            LabelModification::Add(l) => r == Either::<String, String>::Left(l),
            LabelModification::Remove(l) => r == Either::<String, String>::Right(l),
        },
{
    match m {
        LabelModification::Add(l) => Either::Left(l.clone()),
        LabelModification::Remove(l) => Either::Right(l.clone()),
    }
}

/// Relies on `Itertools::partition_map`: each item goes, in order, to the left or the right
/// collection as the closure says, here `side_of`.
#[verifier::external_body]
pub(crate) fn partition_by_side(mods: &Vec<LabelModification>) -> (r: (Vec<String>, Vec<String>))
    ensures
        label_seq(r.0@) == labels_to_add(mods@),
        label_seq(r.1@) == labels_to_remove(mods@),
{
    mods.iter().partition_map(|m| side_of(m))
}

/// Per-repository mapping from trigger to the ordered modifications it asks for.
pub struct LabelPolicy {
    entries: Vec<(LabelTrigger, Vec<LabelModification>)>,
}

impl LabelPolicy {
    /// No trigger appears twice among the entries.
    pub closed spec fn wf(&self) -> bool {
        forall|i: int, j: int|
            0 <= i < j < self.entries@.len() ==> self.entries@[i].0 != self.entries@[j].0
    }

    closed spec fn has_entry(&self, t: LabelTrigger) -> bool {
        exists|i: int| 0 <= i < self.entries@.len() && self.entries@[i].0 == t
    }

    closed spec fn entry_index(&self, t: LabelTrigger) -> int {
        choose|i: int| 0 <= i < self.entries@.len() && self.entries@[i].0 == t
    }

    pub closed spec fn view(&self) -> Map<LabelTrigger, Seq<LabelModification>> {
        Map::new(|t: LabelTrigger| self.has_entry(t), |t: LabelTrigger| self.entries@[self.entry_index(t)].1@)
    }

    /// A policy that maps no trigger.
    pub fn new() -> (r: LabelPolicy)
        ensures
            r.wf(),
            r@ == Map::<LabelTrigger, Seq<LabelModification>>::empty(),
    {
        let r = LabelPolicy { entries: Vec::new() };
        assert(r@ =~= Map::<LabelTrigger, Seq<LabelModification>>::empty());
        r
    }

    /// Index of the entry for `t`, if there is one.
    fn find(&self, t: LabelTrigger) -> (r: Option<usize>)
        requires
            self.wf(),
        ensures
            match r {
                Some(i) => i < self.entries@.len() && self.entries@[i as int].0 == t
                    && self.entry_index(t) == i,
                None => !self.has_entry(t),
            },
    {
        let mut i: usize = 0;
        while i < self.entries.len()
            invariant
                self.wf(),
                i <= self.entries@.len(),
                forall|k: int| 0 <= k < i ==> self.entries@[k].0 != t,
            decreases self.entries@.len() - i,
        {
            if self.entries[i].0 == t {
                proof {
                    let j = self.entry_index(t);
                    assert(self.has_entry(t));
                    assert(0 <= j < self.entries@.len() && self.entries@[j].0 == t);
                    if j != i {
                        if j < i {
                            assert(self.entries@[j].0 != self.entries@[i as int].0);
                        } else {
                            assert(self.entries@[i as int].0 != self.entries@[j].0);
                        }
                    }
                }
                return Some(i);
            }
            i = i + 1;
        }
        None
    }

    /// The modifications that `t` asks for, or `None` where the policy does not map `t`.
    pub fn get(&self, t: LabelTrigger) -> (r: Option<&Vec<LabelModification>>)
        requires
            self.wf(),
        ensures
            match r {
                Some(mods) => self@.contains_key(t) && mods@ == self@[t],
                None => !self@.contains_key(t),
            },
    {
        match self.find(t) {
            Some(i) => Some(&self.entries[i].1),
            None => None,
        }
    }

    /// Maps `t` to `mods`, in place of what it was mapped to before.
    pub fn insert(&mut self, t: LabelTrigger, mods: Vec<LabelModification>)
        requires
            old(self).wf(),
        ensures
            final(self).wf(),
            final(self)@ == old(self)@.insert(t, mods@),
    {
        let ghost mods_view = mods@;
        match self.find(t) {
            Some(i) => {
                self.entries[i] = (t, mods);
                proof {
                    let pre = *old(self);
                    assert forall|k: LabelTrigger| #[trigger] self.has_entry(k) == pre.has_entry(k) by {
                        if pre.has_entry(k) {
                            let j = pre.entry_index(k);
                            assert(self.entries@[j].0 == k);
                        }
                        if self.has_entry(k) {
                            let j = self.entry_index(k);
                            assert(pre.entries@[j].0 == k);
                        }
                    }
                    assert forall|k: LabelTrigger| self.has_entry(k) && k != t implies
                        self.entries@[self.entry_index(k)].1@ == pre.entries@[pre.entry_index(k)].1@ by {
                        let j = self.entry_index(k);
                        let j0 = pre.entry_index(k);
                        assert(pre.entries@[j].0 == k);
                        if j != j0 {
                            if j < j0 {
                                assert(pre.entries@[j].0 != pre.entries@[j0].0);
                            } else {
                                assert(pre.entries@[j0].0 != pre.entries@[j].0);
                            }
                        }
                    }
                    assert(self.has_entry(t));
                    let jt = self.entry_index(t);
                    if jt != i {
                        if jt < i {
                            assert(self.entries@[jt].0 != self.entries@[i as int].0);
                        } else {
                            assert(self.entries@[i as int].0 != self.entries@[jt].0);
                        }
                    }
                    assert(self@ =~= pre@.insert(t, mods_view));
                }
            },
            None => {
                self.entries.push((t, mods));
                proof {
                    let pre = *old(self);
                    let n = pre.entries@.len() as int;
                    assert(self.entries@[n].0 == t);
                    assert forall|k: LabelTrigger| k != t implies
                        #[trigger] self.has_entry(k) == pre.has_entry(k) by {
                        if pre.has_entry(k) {
                            let j = pre.entry_index(k);
                            assert(self.entries@[j].0 == k);
                        }
                        if self.has_entry(k) {
                            let j = self.entry_index(k);
                            assert(j != n);
                            assert(pre.entries@[j].0 == k);
                        }
                    }
                    assert forall|k: LabelTrigger| self.has_entry(k) && k != t implies
                        self.entries@[self.entry_index(k)].1@ == pre.entries@[pre.entry_index(k)].1@ by {
                        let j = self.entry_index(k);
                        let j0 = pre.entry_index(k);
                        assert(j != n);
                        assert(pre.entries@[j].0 == k);
                        if j != j0 {
                            if j < j0 {
                                assert(pre.entries@[j].0 != pre.entries@[j0].0);
                            } else {
                                assert(pre.entries@[j0].0 != pre.entries@[j].0);
                            }
                        }
                    }
                    assert(self.has_entry(t));
                    let jt = self.entry_index(t);
                    if jt != n {
                        assert(pre.entries@[jt].0 == t);
                        assert(pre.has_entry(t));
                    }
                    assert(self@ =~= pre@.insert(t, mods_view));
                }
            },
        }
    }
}

} // verus!
