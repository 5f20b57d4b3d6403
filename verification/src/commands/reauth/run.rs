//! The order in which a plan is carried out.
//!
//! For each account the new credentials are written; where that succeeds, the account is put back
//! into scheduling before the next is taken.
use crate::commands::reauth::apply::applied_message;
use crate::commands::reauth::plan::{ApplyOutcome, PlanItem};
use vstd::prelude::*;

verus! {

/// What is to be done next.
#[derive(Debug, Clone, Copy, PartialEq, Eq, Structural)]
pub enum PlanAction {
    /// Write the item at this position.
    Apply(usize),
    /// Put the account of the item at this position back into scheduling.
    Schedule(usize),
    /// Everything is done.
    Done,
}

/// How far a plan is carried out.
#[derive(Debug)]
pub struct PlanRun<'a> {
    /// The plan.
    pub plans: &'a Vec<PlanItem>,
    /// The position of the item that is under way.
    pub at: usize,
    /// Whether that item was written, so that its account is to be put back into scheduling.
    pub written: bool,
    /// What became of the items before it.
    pub outcomes: Vec<ApplyOutcome>,
}

/// Whether `o` tells of the item `p`.
pub open spec fn tells_of(o: ApplyOutcome, p: PlanItem) -> bool {
    o.account_id == p.account_id && o.email@ == p.email@
}

impl<'a> PlanRun<'a> {
    /// Every item before the present one has its outcome, in order.
    pub open spec fn wf(self) -> bool {
        &&& self.at <= self.plans@.len()
        &&& self.outcomes@.len() == self.at
        &&& self.written ==> self.at < self.plans@.len()
        &&& forall|k: int|
            0 <= k < self.at ==> tells_of(#[trigger] self.outcomes@[k], self.plans@[k])
    }

    /// What is to be done next.
    pub open spec fn action(self) -> PlanAction {
        if self.at >= self.plans@.len() {
            PlanAction::Done
        } else if self.written {
            PlanAction::Schedule(self.at)
        } else {
            PlanAction::Apply(self.at)
        }
    }

    /// Before the first item.
    pub fn begin(plans: &'a Vec<PlanItem>) -> (r: PlanRun<'a>)
        ensures
            r.wf(),
            r.plans == plans,
            r.at == 0,
            !r.written,
    {
        PlanRun { plans, at: 0, written: false, outcomes: Vec::new() }
    }

    /// What is to be done next.
    pub fn next(&self) -> (r: PlanAction)
        ensures
            r == self.action(),
    {
        if self.at >= self.plans.len() {
            PlanAction::Done
        } else if self.written {
            PlanAction::Schedule(self.at)
        } else {
            PlanAction::Apply(self.at)
        }
    }

    /// Notes how the action went. An item that could not be written is a failure, and its account
    /// is left as it is; one that was written is a success, whether or not its account could be
    /// put back into scheduling.
    pub fn took(&mut self, result: &Result<(), String>)
        requires
            old(self).wf(),
            !(old(self).action() is Done),
        ensures
            final(self).wf(),
            final(self).plans == old(self).plans,
            match (old(self).written, *result) {
                (false, Ok(_)) => final(self).written && final(self).at == old(self).at
                    && final(self).outcomes@ == old(self).outcomes@,
                (false, Err(e)) => !final(self).written && final(self).at == old(self).at + 1
                    && final(self).outcomes@.drop_last() == old(self).outcomes@
                    && !final(self).outcomes@.last().ok && final(self).outcomes@.last().message@
                    == e@,
                (true, _) => !final(self).written && final(self).at == old(self).at + 1
                    && final(self).outcomes@.drop_last() == old(self).outcomes@
                    && final(self).outcomes@.last().ok && final(self).outcomes@.last().message@
                    == applied_message(*result),
            },
    {
        let plans = self.plans;
        let n = plans.len();
        assert(self.at < n);
        let p = &plans[self.at];
        let ghost was = self.outcomes@;
        if self.written {
            self.outcomes.push(ApplyOutcome::applied(p, result));
            self.written = false;
            self.at = self.at + 1;
            assert(self.outcomes@.drop_last() =~= was);
        } else {
            match result {
                Ok(_) => {
                    self.written = true;
                },
                Err(e) => {
                    self.outcomes.push(ApplyOutcome::failed(p, e.as_str()));
                    self.at = self.at + 1;
                    assert(self.outcomes@.drop_last() =~= was);
                },
            }
        }
    }
}

/// Begins to carry out a plan: the run is that of this plan, nothing of it is done, and its first
/// item is written first.
pub fn execute_plan<'a>(plans: &'a Vec<PlanItem>) -> (r: PlanRun<'a>)
    ensures
        r.wf(),
        r.plans == plans,
        r.outcomes@.len() == 0,
        r.action() == (if plans@.len() == 0 {
            PlanAction::Done
        } else {
            PlanAction::Apply(0)
        }),
{
    PlanRun::begin(plans)
}

/// An account is put back into scheduling only after its credentials were written: the action
/// follows on a writing of the same item, and on nothing else.
pub proof fn law_scheduled_after_written(r: PlanRun, i: usize)
    requires
        r.wf(),
        r.action() == PlanAction::Schedule(i),
    ensures
        r.written,
        r.at == i,
        i < r.plans@.len(),
{
}

/// When everything is done, every item has its outcome.
pub proof fn law_every_item_has_its_outcome(r: PlanRun)
    requires
        r.wf(),
        r.action() is Done,
    ensures
        r.outcomes@.len() == r.plans@.len(),
        forall|k: int|
            0 <= k < r.plans@.len() ==> tells_of(#[trigger] r.outcomes@[k], r.plans@[k]),
{
}

/// The items are taken in order: the one that is under way has as many before it as there are
/// outcomes, and is written before anything else is done about it.
pub proof fn law_next_step(r: PlanRun)
    requires
        r.wf(),
    ensures
        match r.action() {
            PlanAction::Apply(i) => i == r.outcomes@.len() && i < r.plans@.len() && !r.written,
            PlanAction::Schedule(i) => i == r.outcomes@.len() && i < r.plans@.len() && r.written,
            PlanAction::Done => r.outcomes@.len() == r.plans@.len(),
        },
        forall|k: int|
            0 <= k < r.outcomes@.len() ==> (#[trigger] r.outcomes@[k]).account_id
                == r.plans@[k].account_id && r.outcomes@[k].email@ == r.plans@[k].email@,
{
    assert forall|k: int| 0 <= k < r.outcomes@.len() implies (#[trigger] r.outcomes@[k]).account_id
        == r.plans@[k].account_id && r.outcomes@[k].email@ == r.plans@[k].email@ by {
        assert(tells_of(r.outcomes@[k], r.plans@[k]));
    }
}

// ---------------------------------------------------------------------------
// Laws on what a call gives
// ---------------------------------------------------------------------------

/// An item that could not be written has failed, and its account is not touched further; one that
/// was written is good, whatever becomes of its scheduling. Each step is about the item under way.
pub proof fn law_step_of_a_run<'a>(run: &mut PlanRun<'a>, result: &Result<(), String>)
    requires
        call_ensures(PlanRun::<'a>::took, (run, result), ()),
    ensures
        !old(run).written && *result is Ok ==> final(run).written && final(run).at == old(run).at
            && final(run).outcomes@ == old(run).outcomes@,
        !old(run).written && *result is Err ==> !final(run).written && final(run).at == old(run).at
            + 1 && !final(run).outcomes@.last().ok,
        old(run).written ==> !final(run).written && final(run).at == old(run).at + 1
            && final(run).outcomes@.last().ok,
        !final(run).written ==> final(run).outcomes@.drop_last() == old(run).outcomes@,
        final(run).plans == old(run).plans,
{
}

/// A run begins with the first item of its plan, which is written first.
pub proof fn law_run_begins<'a>(plans: &'a Vec<PlanItem>, r: PlanRun<'a>, a: PlanAction)
    requires
        call_ensures(execute_plan, (plans,), r),
        call_ensures(PlanRun::<'a>::next, (&r,), a),
    ensures
        r.plans == plans,
        r.outcomes@.len() == 0,
        a == (if plans@.len() == 0 {
            PlanAction::Done
        } else {
            PlanAction::Apply(0)
        }),
{
}

} // verus!
