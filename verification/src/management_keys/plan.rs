//! In what order keys are created, stored, published and revoked, and what is left
//! when one of these fails.

use vstd::prelude::*;

verus! {

/// What is done with the keys of a provider.
#[derive(Debug, Clone, Copy, PartialEq, Eq, Structural)]
pub enum Plan {
    /// Provision a new key.
    Create,
    /// Revoke a key.
    Revoke,
    /// Replace a key: the old one goes before the new one comes.
    Rotate,
    /// Replace a key that is published in an entry: the old one goes when the new one
    /// is published.
    Republish,
}

/// A step of a plan.
#[derive(Debug, Clone, Copy, PartialEq, Eq, Structural)]
pub enum Task {
    /// Read the label and the limits of the old key from the provider.
    FetchInfo,
    /// Revoke the old key at the provider.
    RevokeOld,
    /// Delete the record of the old key.
    DeleteRecord,
    /// Create the new key at the provider.
    CreateNew,
    /// Set how often the limit of the new key is reset, which creating it cannot set.
    SetReset,
    /// Store the new key, encrypted for devices.
    Store,
    /// Write the new key into its entry.
    Publish,
    /// Offer the new key to the operator.
    Reveal,
}

/// What went wrong, and what that means.
#[derive(Debug, Clone, Copy, PartialEq, Eq, Structural)]
pub enum PlanFailure {
    /// Nothing was changed by any request that was answered.
    NothingChanged,
    /// The old key is revoked, but its record is left.
    RecordLeft,
    /// The old key is revoked, and no new one was answered for.
    NoActiveKey,
    /// The new key is there, but its limit is not reset as asked for, and it was not
    /// stored.
    ResetNotSet,
    /// The new key is there, but it was not stored.
    NotStored,
    /// The new key is stored, but it was not published; the old key works.
    NotPublished,
    /// The new key is published, but the old key works still.
    OldKeyActive,
    /// The new key is stored, but it was not shown.
    NotRevealed,
}

/// The tasks of a plan, in order.
pub open spec fn tasks(plan: Plan) -> Seq<Task> {
    match plan {
        Plan::Create => seq![Task::CreateNew, Task::SetReset, Task::Store, Task::Reveal],
        Plan::Revoke => seq![Task::RevokeOld, Task::DeleteRecord],
        Plan::Rotate => seq![
            Task::FetchInfo,
            Task::RevokeOld,
            Task::DeleteRecord,
            Task::CreateNew,
            Task::SetReset,
            Task::Store,
            Task::Reveal,
        ],
        Plan::Republish => seq![
            Task::FetchInfo,
            Task::CreateNew,
            Task::SetReset,
            Task::Store,
            Task::Publish,
            Task::RevokeOld,
        ],
    }
}

/// What the failure of a task means; `None` if the plan goes on.
pub open spec fn failure(plan: Plan, task: Task) -> Option<PlanFailure> {
    match task {
        Task::FetchInfo => Some(PlanFailure::NothingChanged),
        Task::RevokeOld => Some(
            if plan == Plan::Republish {
                PlanFailure::OldKeyActive
            } else {
                PlanFailure::NothingChanged
            },
        ),
        Task::DeleteRecord => if plan == Plan::Rotate {
            None
        } else {
            Some(PlanFailure::RecordLeft)
        },
        Task::CreateNew => Some(
            if plan == Plan::Rotate {
                PlanFailure::NoActiveKey
            } else {
                PlanFailure::NothingChanged
            },
        ),
        Task::SetReset => Some(PlanFailure::ResetNotSet),
        Task::Store => Some(PlanFailure::NotStored),
        Task::Publish => Some(PlanFailure::NotPublished),
        Task::Reveal => Some(PlanFailure::NotRevealed),
    }
}

/// A plan under way: how many of its tasks are behind it.
#[derive(Debug, Clone, Copy, PartialEq, Eq, Structural)]
pub struct Run {
    pub plan: Plan,
    pub done: usize,
}

impl Run {
    /// The task that comes next; `None` at the end of the plan.
    pub open spec fn next(self) -> Option<Task> {
        if self.done < tasks(self.plan).len() {
            Some(tasks(self.plan)[self.done as int])
        } else {
            None
        }
    }

    /// Begins a plan.
    pub fn start(plan: Plan) -> (out: Run)
        ensures
            out == (Run { plan, done: 0 }),
    {
        Run { plan, done: 0 }
    }

    /// The task that comes next; `None` at the end of the plan.
    pub fn task(&self) -> (out: Option<Task>)
        ensures
            out == self.next(),
    {
        match self.plan {
            Plan::Create => match self.done {
                0 => Some(Task::CreateNew),
                1 => Some(Task::SetReset),
                2 => Some(Task::Store),
                3 => Some(Task::Reveal),
                _ => None,
            },
            Plan::Revoke => match self.done {
                0 => Some(Task::RevokeOld),
                1 => Some(Task::DeleteRecord),
                _ => None,
            },
            Plan::Rotate => match self.done {
                0 => Some(Task::FetchInfo),
                1 => Some(Task::RevokeOld),
                2 => Some(Task::DeleteRecord),
                3 => Some(Task::CreateNew),
                4 => Some(Task::SetReset),
                5 => Some(Task::Store),
                6 => Some(Task::Reveal),
                _ => None,
            },
            Plan::Republish => match self.done {
                0 => Some(Task::FetchInfo),
                1 => Some(Task::CreateNew),
                2 => Some(Task::SetReset),
                3 => Some(Task::Store),
                4 => Some(Task::Publish),
                5 => Some(Task::RevokeOld),
                _ => None,
            },
        }
    }

    /// Takes note that the next task was done, or failed. `Ok(false)`: the plan goes on
    /// although the task failed.
    pub fn report(&mut self, succeeded: bool) -> (out: Result<bool, PlanFailure>)
        ensures
            match old(self).next() {
                None => *final(self) == *old(self) && out == Ok::<bool, PlanFailure>(true),
                Some(task) => if succeeded {
                    &&& *final(self) == (Run {
                        plan: old(self).plan,
                        done: (old(self).done + 1) as usize,
                    })
                    &&& out == Ok::<bool, PlanFailure>(true)
                } else {
                    match failure(old(self).plan, task) {
                        Some(f) => *final(self) == *old(self) && out == Err::<bool, PlanFailure>(f),
                        None => {
                            &&& *final(self) == (Run {
                                plan: old(self).plan,
                                done: (old(self).done + 1) as usize,
                            })
                            &&& out == Ok::<bool, PlanFailure>(false)
                        },
                    }
                },
            },
    {
        match self.task() {
            None => Ok(true),
            Some(task) => {
                if !succeeded {
                    if let Some(f) = failure_of(self.plan, task) {
                        return Err(f);
                    }
                }
                self.done = self.done + 1;
                Ok(succeeded)
            },
        }
    }
}

fn failure_of(plan: Plan, task: Task) -> (out: Option<PlanFailure>)
    ensures
        out == failure(plan, task),
{
    match task {
        Task::FetchInfo => Some(PlanFailure::NothingChanged),
        Task::RevokeOld => if plan == Plan::Republish {
            Some(PlanFailure::OldKeyActive)
        } else {
            Some(PlanFailure::NothingChanged)
        },
        Task::DeleteRecord => if plan == Plan::Rotate {
            None
        } else {
            Some(PlanFailure::RecordLeft)
        },
        Task::CreateNew => if plan == Plan::Rotate {
            Some(PlanFailure::NoActiveKey)
        } else {
            Some(PlanFailure::NothingChanged)
        },
        Task::SetReset => Some(PlanFailure::ResetNotSet),
        Task::Store => Some(PlanFailure::NotStored),
        Task::Publish => Some(PlanFailure::NotPublished),
        Task::Reveal => Some(PlanFailure::NotRevealed),
    }
}

// ── What a plan leaves ──────────────────────────────────────────────────────
/// Where the two keys stand.
pub struct Keys {
    /// The provider accepts the old key.
    pub old_active: bool,
    /// The server has a record of the old key.
    pub old_record: bool,
    /// The provider accepts the new key.
    pub new_active: bool,
    /// The limit of the new key is reset as asked for.
    pub reset_set: bool,
    /// The new key can be recovered from its encrypted copy.
    pub stored: bool,
    /// The entry holds the new key.
    pub published: bool,
    /// The new key was offered to the operator.
    pub revealed: bool,
}

/// Where the keys stand before a plan.
pub open spec fn keys_before(plan: Plan) -> Keys {
    Keys {
        old_active: plan != Plan::Create,
        old_record: plan != Plan::Create,
        new_active: false,
        reset_set: false,
        stored: false,
        published: false,
        revealed: false,
    }
}

/// Where the keys stand after a task that succeeded. A task is one request, or none, that
/// changes anything; one that failed is taken to have changed nothing. Of a request that
/// was lost on its way back this cannot be known, and is not said.
pub open spec fn keys_after(keys: Keys, task: Task) -> Keys {
    match task {
        Task::FetchInfo => keys,
        Task::RevokeOld => Keys { old_active: false, ..keys },
        Task::DeleteRecord => Keys { old_record: false, ..keys },
        Task::CreateNew => Keys { new_active: true, ..keys },
        Task::SetReset => Keys { reset_set: true, ..keys },
        Task::Store => Keys { stored: true, ..keys },
        Task::Publish => Keys { published: true, ..keys },
        Task::Reveal => Keys { revealed: true, ..keys },
    }
}

/// Where the keys stand in a run, if `outcomes` says of each task behind it whether it
/// succeeded.
pub open spec fn keys_in(plan: Plan, outcomes: Seq<bool>) -> Keys
    decreases outcomes.len(),
{
    if outcomes.len() == 0 {
        keys_before(plan)
    } else {
        let before = keys_in(plan, outcomes.drop_last());
        if outcomes.last() {
            keys_after(before, tasks(plan)[outcomes.len() - 1])
        } else {
            before
        }
    }
}

/// Whether a run can have come through these outcomes: no more than there are tasks,
/// and none failed but where the plan goes on.
pub open spec fn possible(plan: Plan, outcomes: Seq<bool>) -> bool {
    &&& outcomes.len() <= tasks(plan).len()
    &&& forall|i: int|
        0 <= i < outcomes.len() && !#[trigger] outcomes[i] ==> failure(plan, tasks(plan)[i]) is None
}

proof fn lemma_keys(plan: Plan, outcomes: Seq<bool>)
    requires
        possible(plan, outcomes),
    ensures
        ({
            let k = keys_in(plan, outcomes);
            let n = outcomes.len();
            match plan {
                Plan::Create => {
                    &&& !k.old_active && !k.published
                    &&& k.new_active == (n >= 1)
                    &&& k.reset_set == (n >= 2)
                    &&& k.stored == (n >= 3)
                    &&& k.revealed == (n >= 4)
                },
                Plan::Revoke => {
                    &&& k.old_active == (n < 1)
                    &&& k.old_record == (n < 2)
                    &&& !k.new_active && !k.reset_set && !k.stored && !k.published && !k.revealed
                },
                Plan::Rotate => {
                    &&& k.old_active == (n < 2)
                    &&& k.new_active == (n >= 4)
                    &&& k.reset_set == (n >= 5)
                    &&& k.stored == (n >= 6)
                    &&& k.revealed == (n >= 7)
                    &&& !k.published
                },
                Plan::Republish => {
                    &&& k.new_active == (n >= 2)
                    &&& k.reset_set == (n >= 3)
                    &&& k.stored == (n >= 4)
                    &&& k.published == (n >= 5)
                    &&& k.old_active == (n < 6)
                    &&& !k.revealed
                },
            }
        }),
    decreases outcomes.len(),
{
    if outcomes.len() > 0 {
        let before = outcomes.drop_last();
        assert forall|i: int| 0 <= i < before.len() && !#[trigger] before[i] implies failure(
            plan,
            tasks(plan)[i],
        ) is None by {
            assert(before[i] == outcomes[i]);
        }
        lemma_keys(plan, before);
        assert(outcomes.last() == outcomes[outcomes.len() - 1]);
    }
}

/// Republishing leaves no gap: at every moment the key in the entry works, be it the
/// old one or the new one. The old key is revoked only when the new one is stored and
/// published, and the new one is never offered to the operator.
pub proof fn law_republish_leaves_no_gap(outcomes: Seq<bool>)
    requires
        possible(Plan::Republish, outcomes),
    ensures
        ({
            let k = keys_in(Plan::Republish, outcomes);
            &&& if k.published {
                k.new_active
            } else {
                k.old_active
            }
            &&& !k.old_active ==> k.new_active && k.stored && k.published
            &&& !k.revealed
        }),
{
    lemma_keys(Plan::Republish, outcomes);
}

/// A new key is offered to the operator only when it is stored: who cannot see it
/// now can recover it later.
pub proof fn law_stored_before_revealed(plan: Plan, outcomes: Seq<bool>)
    requires
        possible(plan, outcomes),
    ensures
        keys_in(plan, outcomes).revealed ==> keys_in(plan, outcomes).stored,
        outcomes.len() < tasks(plan).len() && tasks(plan)[outcomes.len() as int] == Task::Reveal
            ==> keys_in(plan, outcomes).stored,
{
    lemma_keys(plan, outcomes);
}

/// A failure says truly where the keys stand, as far as the requests were answered: that
/// nothing was changed, that no key works any more, that the new key works but its limit
/// is not set, or it is not stored or not published or not shown, or that the old key
/// works still.
pub proof fn law_failure_is_truthful(plan: Plan, outcomes: Seq<bool>)
    requires
        possible(plan, outcomes),
        outcomes.len() < tasks(plan).len(),
    ensures
        ({
            let k = keys_in(plan, outcomes);
            match failure(plan, tasks(plan)[outcomes.len() as int]) {
                Some(PlanFailure::NothingChanged) => k == keys_before(plan),
                Some(PlanFailure::NoActiveKey) => !k.old_active && !k.new_active,
                Some(PlanFailure::RecordLeft) => !k.old_active && k.old_record,
                Some(PlanFailure::ResetNotSet) => k.new_active && !k.reset_set && !k.stored && (
                k.old_active <==> plan == Plan::Republish),
                Some(PlanFailure::NotStored) => k.new_active && k.reset_set && !k.stored,
                Some(PlanFailure::NotPublished) => k.stored && !k.published && k.old_active,
                Some(PlanFailure::OldKeyActive) => k.published && k.old_active,
                Some(PlanFailure::NotRevealed) => k.stored && !k.revealed,
                None => true,
            }
        }),
{
    lemma_keys(plan, outcomes);
    if outcomes.len() > 0 {
        let before = outcomes.drop_last();
        assert forall|i: int| 0 <= i < before.len() && !#[trigger] before[i] implies failure(
            plan,
            tasks(plan)[i],
        ) is None by {
            assert(before[i] == outcomes[i]);
        }
        reveal_with_fuel(keys_in, 3);
    }
}

/// A plan that comes to its end has done what it is for.
pub proof fn law_plan_completes(plan: Plan, outcomes: Seq<bool>)
    requires
        possible(plan, outcomes),
        outcomes.len() == tasks(plan).len(),
    ensures
        ({
            let k = keys_in(plan, outcomes);
            match plan {
                Plan::Create => k.new_active && k.reset_set && k.stored && k.revealed,
                Plan::Revoke => !k.old_active && !k.old_record,
                Plan::Rotate => !k.old_active && k.new_active && k.reset_set && k.stored
                    && k.revealed,
                Plan::Republish => !k.old_active && k.new_active && k.reset_set && k.stored
                    && k.published,
            }
        }),
{
    lemma_keys(plan, outcomes);
}

/// The tasks of a plan come in this order. A rotation reads the old key before it revokes it,
/// and revokes it before it creates the new one; a republication revokes the old key last. A
/// new key is created before its reset is set, that before it is stored, and that before it is
/// published or revealed; and a record is deleted after its key was revoked. No task comes
/// twice.
pub proof fn law_order_of_tasks(plan: Plan, i: int, j: int)
    requires
        0 <= i < tasks(plan).len(),
        0 <= j < tasks(plan).len(),
    ensures
        ({
            let a = tasks(plan)[i];
            let b = tasks(plan)[j];
            &&& a == b ==> i == j
            &&& a == Task::FetchInfo ==> i == 0
            &&& plan == Plan::Rotate && a == Task::RevokeOld && b == Task::CreateNew ==> i < j
            &&& plan == Plan::Rotate && a == Task::DeleteRecord && b == Task::CreateNew ==> i < j
            &&& plan == Plan::Republish && a == Task::RevokeOld ==> i == tasks(plan).len() - 1
            &&& a == Task::RevokeOld && b == Task::DeleteRecord ==> i < j
            &&& a == Task::CreateNew && b == Task::SetReset ==> i < j
            &&& a == Task::SetReset && b == Task::Store ==> i < j
            &&& a == Task::Store && (b == Task::Publish || b == Task::Reveal) ==> i < j
            &&& a == Task::Reveal ==> i == tasks(plan).len() - 1
        }),
{
}

/// Which tasks a plan has: only a republication publishes, and it alone of those that create a
/// key does not reveal it; creating and revoking do not read the old key; and only creating
/// leaves an old key alone.
pub proof fn law_tasks_of_plans(plan: Plan)
    ensures
        tasks(plan).contains(Task::Publish) <==> plan == Plan::Republish,
        tasks(plan).contains(Task::Reveal) <==> plan == Plan::Create || plan == Plan::Rotate,
        tasks(plan).contains(Task::FetchInfo) <==> plan == Plan::Rotate || plan == Plan::Republish,
        tasks(plan).contains(Task::RevokeOld) <==> plan != Plan::Create,
        tasks(plan).contains(Task::DeleteRecord) <==> plan == Plan::Revoke || plan == Plan::Rotate,
        tasks(plan).contains(Task::CreateNew) <==> plan != Plan::Revoke,
        tasks(plan).contains(Task::SetReset) <==> plan != Plan::Revoke,
        tasks(plan).contains(Task::Store) <==> plan != Plan::Revoke,
{
    let t = tasks(plan);
    match plan {
        Plan::Create => {
            assert(t[0] == Task::CreateNew && t[1] == Task::SetReset && t[2] == Task::Store && t[3]
                == Task::Reveal);
        },
        Plan::Revoke => {
            assert(t[0] == Task::RevokeOld && t[1] == Task::DeleteRecord);
        },
        Plan::Rotate => {
            assert(t[0] == Task::FetchInfo && t[1] == Task::RevokeOld && t[2] == Task::DeleteRecord
                && t[3] == Task::CreateNew && t[4] == Task::SetReset && t[5] == Task::Store && t[6]
                == Task::Reveal);
        },
        Plan::Republish => {
            assert(t[0] == Task::FetchInfo && t[1] == Task::CreateNew && t[2] == Task::SetReset
                && t[3] == Task::Store && t[4] == Task::Publish && t[5] == Task::RevokeOld);
        },
    }
}

/// A task that fails stops its plan, but for one: a rotation goes on without the record of the
/// old key deleted, for the new key is needed all the same.
pub proof fn law_failures_stop_the_plan(plan: Plan, task: Task)
    ensures
        failure(plan, task) is None <==> plan == Plan::Rotate && task == Task::DeleteRecord,
{
}

} // verus!
