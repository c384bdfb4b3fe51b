//! Scheduling: Earliest-Deadline-First (EDF) for real-time work, plus a
//! best-effort round-robin class for everything else, with EDF admission
//! control in front of the real-time queue.
use std::collections::VecDeque;
use std::time::Duration;
use vstd::prelude::*;
use crate::kernel::process::ProcessId;

verus! {

#[derive(Debug, Clone, Copy, PartialEq, Eq, Structural)]
pub enum SchedulingClass {
    /// Hard or soft real-time task with a deadline, scheduled EDF. `budget_ns`
    /// is the task's declared worst-case execution time, the resource the
    /// admission test protects.
    RealTime { deadline_ns: u64, budget_ns: u64 },
    /// Everything else: round robin, no deadline guarantees.
    BestEffort,
}

/// A task on the real-time queue.
#[derive(Debug, Clone, Copy, PartialEq, Eq, Structural)]
struct ScheduledTask {
    pid: ProcessId,
    deadline_ns: u64,
    budget_ns: u64,
}

/// Why an admission request was rejected.
#[derive(Debug, Clone, Copy, PartialEq, Eq, Structural)]
pub enum AdmissionError {
    /// Admitting the task would push total admitted budget over the
    /// scheduling period (utilization above 1).
    UtilizationExceeded { projected_ns: u64, period_ns: u64 },
}

/// The name of what `Duration::from_nanos` returns for `nanos`.
pub uninterp spec fn duration_from_nanos(nanos: u64) -> Duration;

/// Calls `Duration::from_nanos`. The contract claims only that the result is
/// a function of `nanos`, named `duration_from_nanos`; what that duration
/// is (`nanos` nanoseconds, by std's documentation) is left unstated.
#[verifier::external_body]
fn nanos_to_duration(nanos: u64) -> (d: Duration)
    ensures
        d == duration_from_nanos(nanos),
{
    Duration::from_nanos(nanos)
}

/// The sum of the budgets (third components) of the real-time tasks `s`.
pub open spec fn budget_sum(s: Seq<(ProcessId, u64, u64)>) -> int
    decreases s.len(),
{
    if s.len() == 0 {
        0
    } else {
        s[0].2 + budget_sum(s.drop_first())
    }
}

/// Position `i` holds the earliest deadline of the real-time tasks `s`, and
/// no earlier position holds that deadline: the task EDF runs next.
pub open spec fn is_earliest(s: Seq<(ProcessId, u64, u64)>, i: int) -> bool {
    &&& 0 <= i < s.len()
    &&& forall|j: int| 0 <= j < s.len() ==> #[trigger] s[j].1 >= s[i].1
    &&& forall|j: int| 0 <= j < i ==> #[trigger] s[j].1 > s[i].1
}

proof fn lemma_budget_sum_push(s: Seq<(ProcessId, u64, u64)>, t: (ProcessId, u64, u64))
    ensures
        budget_sum(s.push(t)) == budget_sum(s) + t.2,
    decreases s.len(),
{
    if s.len() == 0 {
        assert(s.push(t).drop_first() =~= Seq::<(ProcessId, u64, u64)>::empty());
        assert(budget_sum(s.push(t).drop_first()) == 0);
        assert(s.push(t)[0] == t);
    } else {
        lemma_budget_sum_push(s.drop_first(), t);
        assert(s.push(t).drop_first() =~= s.drop_first().push(t));
        assert(s.push(t)[0] == s[0]);
    }
}

proof fn lemma_budget_sum_remove(s: Seq<(ProcessId, u64, u64)>, i: int)
    requires
        0 <= i < s.len(),
    ensures
        budget_sum(s.remove(i)) == budget_sum(s) - s[i].2,
        s[i].2 <= budget_sum(s),
    decreases s.len(),
{
    lemma_budget_sum_nonneg(s.drop_first());
    if i == 0 {
        assert(s.remove(0) =~= s.drop_first());
    } else {
        lemma_budget_sum_remove(s.drop_first(), i - 1);
        assert(s.remove(i).drop_first() =~= s.drop_first().remove(i - 1));
    }
}

proof fn lemma_budget_sum_nonneg(s: Seq<(ProcessId, u64, u64)>)
    ensures
        budget_sum(s) >= 0,
    decreases s.len(),
{
    if s.len() > 0 {
        lemma_budget_sum_nonneg(s.drop_first());
    }
}

/// Running a real-time task frees exactly its budget: afterwards a task
/// with the same budget passes the admission test again.
pub proof fn lemma_tick_frees_budget(pre: Scheduler, post: Scheduler, r: Option<ProcessId>)
    requires
        pre.wf(),
        pre.real_time().len() > 0,
        Scheduler::ticked(pre, post, r),
    ensures
        exists|i: int|
            #![trigger is_earliest(pre.real_time(), i)]
            is_earliest(pre.real_time(), i) && r == Some(pre.real_time()[i].0) && post.admitted()
                + pre.real_time()[i].2 == pre.admitted() && post.admitted() + pre.real_time()[i].2
                <= post.period(),
{
    let i = choose|i: int|
        #![trigger is_earliest(pre.real_time(), i)]
        {
            &&& is_earliest(pre.real_time(), i)
            &&& r == Some(pre.real_time()[i].0)
            &&& post.real_time() == pre.real_time().remove(i)
            &&& post.admitted() == pre.admitted() - pre.real_time()[i].2
            &&& post.best_effort() == pre.best_effort()
        };
    assert(is_earliest(pre.real_time(), i));
}

/// What one tick does to the queues. While real-time work is queued, the
/// tick runs a real-time task whose deadline is no later than any other
/// queued deadline, removes exactly that task, frees its budget, and leaves
/// the best-effort queue exactly as it was. With no real-time work, it runs
/// the front of the best-effort queue (in admission order) and leaves the
/// real-time side alone; with nothing queued it runs nothing.
pub proof fn lemma_tick_behaviour(pre: Scheduler, post: Scheduler, r: Option<ProcessId>)
    requires
        pre.wf(),
        Scheduler::ticked(pre, post, r),
    ensures
        post.period() == pre.period(),
        pre.real_time().len() > 0 ==> {
            &&& post.best_effort() == pre.best_effort()
            &&& post.real_time().len() == pre.real_time().len() - 1
            &&& exists|i: int|
                0 <= i < pre.real_time().len() && r == Some(#[trigger] pre.real_time()[i].0)
                    && post.admitted() + pre.real_time()[i].2 == pre.admitted() && forall|j: int|
                    0 <= j < pre.real_time().len() ==> pre.real_time()[j].1 >= pre.real_time()[i].1
        },
        pre.real_time().len() == 0 ==> {
            &&& post.real_time() == pre.real_time()
            &&& post.admitted() == pre.admitted()
            &&& pre.best_effort().len() > 0 ==> r == Some(pre.best_effort()[0])
                && post.best_effort() == pre.best_effort().subrange(1, pre.best_effort().len() as int)
            &&& pre.best_effort().len() == 0 ==> r is None && post.best_effort() == pre.best_effort()
        },
{
    if pre.real_time().len() > 0 {
        let i = choose|i: int|
            #![trigger is_earliest(pre.real_time(), i)]
            {
                &&& is_earliest(pre.real_time(), i)
                &&& r == Some(pre.real_time()[i].0)
                &&& post.real_time() == pre.real_time().remove(i)
                &&& post.admitted() == pre.admitted() - pre.real_time()[i].2
                &&& post.best_effort() == pre.best_effort()
            };
        assert(is_earliest(pre.real_time(), i));
        assert(forall|j: int|
            0 <= j < pre.real_time().len() ==> pre.real_time()[j].1 >= pre.real_time()[i].1);
    } else if pre.best_effort().len() > 0 {
        assert(pre.best_effort().drop_first() =~= pre.best_effort().subrange(
            1,
            pre.best_effort().len() as int,
        ));
    }
}

/// The kernel scheduler. `tick()` pops the highest-priority runnable task;
/// `try_admit()` performs EDF admission control before a real-time task is
/// allowed onto the real-time queue at all.
pub struct Scheduler {
    real_time_queue: Vec<ScheduledTask>,
    best_effort_queue: VecDeque<ProcessId>,
    /// Sum of `budget_ns` across all currently admitted real-time tasks.
    admitted_budget_ns: u64,
    /// The scheduling period the utilization bound is measured against.
    period_ns: u64,
}

impl Scheduler {
    /// The real-time queue as (process, deadline, budget) triples, in
    /// admission order.
    pub closed spec fn real_time(&self) -> Seq<(ProcessId, u64, u64)> {
        self.real_time_queue@.map_values(
            |t: ScheduledTask| (t.pid, t.deadline_ns, t.budget_ns),
        )
    }

    /// The best-effort queue, front first.
    pub closed spec fn best_effort(&self) -> Seq<ProcessId> {
        self.best_effort_queue@
    }

    /// The budget admitted and not yet run.
    pub closed spec fn admitted(&self) -> u64 {
        self.admitted_budget_ns
    }

    /// The scheduling period.
    pub closed spec fn period(&self) -> u64 {
        self.period_ns
    }

    /// The scheduler's invariant: the admitted budget is exactly the budget
    /// of the queued real-time tasks, and never more than the period (the
    /// EDF schedulability bound U <= 1).
    pub open spec fn wf(&self) -> bool {
        &&& self.admitted() == budget_sum(self.real_time())
        &&& self.admitted() <= self.period()
    }

    /// What `tick` does: with real-time work queued it runs the task with
    /// the earliest deadline (the first such in admission order) and frees
    /// its budget; otherwise it runs the front of the best-effort queue, if
    /// any.
    pub open spec fn ticked(pre: Scheduler, post: Scheduler, r: Option<ProcessId>) -> bool {
        &&& post.period() == pre.period()
        &&& if pre.real_time().len() > 0 {
            exists|i: int|
                #![trigger is_earliest(pre.real_time(), i)]
                {
                    &&& is_earliest(pre.real_time(), i)
                    &&& r == Some(pre.real_time()[i].0)
                    &&& post.real_time() == pre.real_time().remove(i)
                    &&& post.admitted() == pre.admitted() - pre.real_time()[i].2
                    &&& post.best_effort() == pre.best_effort()
                }
        } else if pre.best_effort().len() > 0 {
            &&& r == Some(pre.best_effort()[0])
            &&& post.best_effort() == pre.best_effort().drop_first()
            &&& post.real_time() == pre.real_time()
            &&& post.admitted() == pre.admitted()
        } else {
            &&& r is None
            &&& post.best_effort() == pre.best_effort()
            &&& post.real_time() == pre.real_time()
            &&& post.admitted() == pre.admitted()
        }
    }

    /// A scheduler with a 1 ms period.
    pub fn new() -> (r: Self)
        ensures
            r.wf(),
            r.period() == 1_000_000,
            r.admitted() == 0,
            r.real_time() == Seq::<(ProcessId, u64, u64)>::empty(),
            r.best_effort() == Seq::<ProcessId>::empty(),
    {
        Self::with_period(1_000_000)
    }

    /// A scheduler whose admission test measures against `period_ns`.
    pub fn with_period(period_ns: u64) -> (r: Self)
        ensures
            r.wf(),
            r.period() == period_ns,
            r.admitted() == 0,
            r.real_time() == Seq::<(ProcessId, u64, u64)>::empty(),
            r.best_effort() == Seq::<ProcessId>::empty(),
    {
        let r = Self {
            real_time_queue: Vec::new(),
            best_effort_queue: VecDeque::new(),
            admitted_budget_ns: 0,
            period_ns,
        };
        assert(r.real_time() =~= Seq::<(ProcessId, u64, u64)>::empty());
        r
    }

    /// The admitted real-time budget, in nanoseconds.
    pub fn admitted_budget_ns(&self) -> (r: u64)
        ensures
            r == self.admitted(),
    {
        self.admitted_budget_ns
    }

    /// The scheduling period, in nanoseconds.
    pub fn period_ns(&self) -> (r: u64)
        ensures
            r == self.period(),
    {
        self.period_ns
    }

    /// Admit a task. A real-time task is rejected when its budget added to
    /// the admitted budget would exceed the period; best-effort tasks are
    /// always admitted, as they carry no deadline promise to break.
    pub fn try_admit(&mut self, pid: ProcessId, class: SchedulingClass) -> (r: Result<
        (),
        AdmissionError,
    >)
        requires
            old(self).wf(),
            class matches SchedulingClass::RealTime { budget_ns, .. } ==> old(self).admitted()
                + budget_ns <= u64::MAX,
        ensures
            final(self).wf(),
            final(self).period() == old(self).period(),
            match class {
                SchedulingClass::RealTime { deadline_ns, budget_ns } => {
                    if old(self).admitted() + budget_ns > old(self).period() {
                        &&& r == Err::<(), AdmissionError>(
                            AdmissionError::UtilizationExceeded {
                                projected_ns: (old(self).admitted() + budget_ns) as u64,
                                period_ns: old(self).period(),
                            },
                        )
                        &&& *final(self) == *old(self)
                    } else {
                        &&& r == Ok::<(), AdmissionError>(())
                        &&& final(self).real_time() == old(self).real_time().push(
                            (pid, deadline_ns, budget_ns),
                        )
                        &&& final(self).admitted() == old(self).admitted() + budget_ns
                        &&& final(self).best_effort() == old(self).best_effort()
                    }
                },
                SchedulingClass::BestEffort => {
                    &&& r == Ok::<(), AdmissionError>(())
                    &&& final(self).best_effort() == old(self).best_effort().push(pid)
                    &&& final(self).real_time() == old(self).real_time()
                    &&& final(self).admitted() == old(self).admitted()
                },
            },
    {
        if let SchedulingClass::RealTime { budget_ns, .. } = class {
            let projected = self.admitted_budget_ns + budget_ns;
            if projected > self.period_ns {
                return Err(
                    AdmissionError::UtilizationExceeded {
                        projected_ns: projected,
                        period_ns: self.period_ns,
                    },
                );
            }
            self.admitted_budget_ns = projected;
        }
        proof {
            if let SchedulingClass::RealTime { deadline_ns, budget_ns } = class {
                lemma_budget_sum_push(old(self).real_time(), (pid, deadline_ns, budget_ns));
            }
        }
        self.submit(pid, class);
        Ok(())
    }

    /// Enqueue a task without an admission check.
    fn submit(&mut self, pid: ProcessId, class: SchedulingClass)
        ensures
            final(self).period() == old(self).period(),
            final(self).admitted() == old(self).admitted(),
            match class {
                SchedulingClass::RealTime { deadline_ns, budget_ns } => {
                    &&& final(self).real_time() == old(self).real_time().push(
                        (pid, deadline_ns, budget_ns),
                    )
                    &&& final(self).best_effort() == old(self).best_effort()
                },
                SchedulingClass::BestEffort => {
                    &&& final(self).best_effort() == old(self).best_effort().push(pid)
                    &&& final(self).real_time() == old(self).real_time()
                },
            },
    {
        match class {
            SchedulingClass::RealTime { deadline_ns, budget_ns } => {
                self.real_time_queue.push(ScheduledTask { pid, deadline_ns, budget_ns });
                proof {
                    assert(self.real_time() =~= old(self).real_time().push(
                        (pid, deadline_ns, budget_ns),
                    ));
                    lemma_budget_sum_push(old(self).real_time(), (pid, deadline_ns, budget_ns));
                }
            },
            SchedulingClass::BestEffort => self.best_effort_queue.push_back(pid),
        }
    }

    /// The position of the task EDF runs next.
    fn earliest_index(&self) -> (r: usize)
        requires
            self.real_time_queue@.len() > 0,
        ensures
            is_earliest(self.real_time(), r as int),
    {
        let mut best: usize = 0;
        let mut i: usize = 1;
        while i < self.real_time_queue.len()
            invariant
                0 <= best < i <= self.real_time_queue@.len(),
                forall|j: int| 0 <= j < i ==> #[trigger] self.real_time()[j].1 >= self.real_time()[best as int].1,
                forall|j: int| 0 <= j < best ==> #[trigger] self.real_time()[j].1 > self.real_time()[best as int].1,
            decreases self.real_time_queue@.len() - i,
        {
            if self.real_time_queue[i].deadline_ns < self.real_time_queue[best].deadline_ns {
                best = i;
            }
            i = i + 1;
        }
        best
    }

    /// The next process to run, preferring the real-time queue (earliest
    /// deadline first). Running a real-time task frees its budget back to
    /// the admission pool.
    pub fn tick(&mut self) -> (r: Option<ProcessId>)
        requires
            old(self).wf(),
        ensures
            final(self).wf(),
            Self::ticked(*old(self), *final(self), r),
    {
        if self.real_time_queue.len() > 0 {
            let i = self.earliest_index();
            let task = self.real_time_queue.remove(i);
            proof {
                lemma_budget_sum_remove(old(self).real_time(), i as int);
                assert(self.real_time() =~= old(self).real_time().remove(i as int));
            }
            self.admitted_budget_ns = self.admitted_budget_ns.saturating_sub(task.budget_ns);
            proof {
                assert(is_earliest(old(self).real_time(), i as int));
            }
            return Some(task.pid);
        }
        let r = self.best_effort_queue.pop_front();
        proof {
            if old(self).best_effort().len() > 0 {
                assert(self.best_effort() =~= old(self).best_effort().drop_first());
            }
        }
        r
    }

    /// Headroom before the tightest deadline in the real-time queue.
    pub fn tightest_deadline(&self) -> (r: Option<Duration>)
        ensures
            match r {
                Some(d) => exists|i: int|
                    #![trigger is_earliest(self.real_time(), i)]
                    is_earliest(self.real_time(), i) && d == duration_from_nanos(
                        self.real_time()[i].1,
                    ),
                None => self.real_time().len() == 0,
            },
    {
        if self.real_time_queue.len() == 0 {
            return None;
        }
        let i = self.earliest_index();
        Some(nanos_to_duration(self.real_time_queue[i].deadline_ns))
    }
}

impl Default for Scheduler {
    fn default() -> (r: Self)
        ensures
            r.wf(),
            r.period() == 1_000_000,
            r.admitted() == 0,
            r.real_time() == Seq::<(ProcessId, u64, u64)>::empty(),
            r.best_effort() == Seq::<ProcessId>::empty(),
    {
        Self::new()
    }
}

} // verus!
