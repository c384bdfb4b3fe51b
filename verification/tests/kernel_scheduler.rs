use std::time::Duration;

use aether::kernel::process::ProcessId;
use aether::kernel::scheduler::{AdmissionError, Scheduler, SchedulingClass};

fn rt(deadline_ns: u64, budget_ns: u64) -> SchedulingClass {
    SchedulingClass::RealTime { deadline_ns, budget_ns }
}

#[test]
fn rejects_task_that_would_exceed_the_utilization_bound() {
    let mut sched = Scheduler::with_period(1_000_000);
    sched.try_admit(ProcessId(1), rt(500_000, 700_000)).unwrap();
    // A second task needing 400_000ns would push the total to 1_100_000,
    // over the 1_000_000ns period: it must be rejected.
    let result = sched.try_admit(ProcessId(2), rt(600_000, 400_000));
    assert!(matches!(
        result,
        Err(AdmissionError::UtilizationExceeded { .. })
    ));
}

#[test]
fn best_effort_tasks_are_never_rejected_by_admission_control() {
    let mut sched = Scheduler::with_period(1); // an absurdly tight period
    assert!(sched.try_admit(ProcessId(1), SchedulingClass::BestEffort).is_ok());
}

#[test]
fn tick_prefers_earliest_deadline_within_real_time_queue() {
    let mut sched = Scheduler::with_period(10_000_000);
    sched.try_admit(ProcessId(1), rt(9_000_000, 1_000_000)).unwrap();
    sched.try_admit(ProcessId(2), rt(1_000_000, 1_000_000)).unwrap();
    assert_eq!(sched.tick(), Some(ProcessId(2))); // earlier deadline first
    assert_eq!(sched.tick(), Some(ProcessId(1)));
}

/// Admitted budget over the period, as the scheduler reports it for
/// observability.
fn utilization(sched: &Scheduler) -> f64 {
    sched.admitted_budget_ns() as f64 / sched.period_ns() as f64
}

#[test]
fn admits_tasks_within_the_utilization_bound() {
    let mut sched = Scheduler::with_period(1_000_000); // 1ms period
    assert!(sched.try_admit(ProcessId(1), rt(500_000, 300_000)).is_ok());
    assert!(sched.try_admit(ProcessId(2), rt(600_000, 400_000)).is_ok());
    // 300_000 + 400_000 = 700_000 <= 1_000_000: still within budget.
    assert!((utilization(&sched) - 0.7).abs() < 1e-9);
}

#[test]
fn ticking_a_real_time_task_frees_its_budget() {
    let mut sched = Scheduler::with_period(1_000_000);
    sched.try_admit(ProcessId(1), rt(500_000, 900_000)).unwrap();
    assert!((utilization(&sched) - 0.9).abs() < 1e-9);

    sched.tick(); // runs and dequeues the task
    assert_eq!(utilization(&sched), 0.0);

    // Budget is free again, so a new task of the same size is admitted.
    assert!(sched.try_admit(ProcessId(2), rt(500_000, 900_000)).is_ok());
}

#[test]
fn admitted_budget_is_exact_in_nanoseconds() {
    let mut sched = Scheduler::with_period(1_000_000);
    sched.try_admit(ProcessId(1), rt(500_000, 300_000)).unwrap();
    sched.try_admit(ProcessId(2), rt(600_000, 400_000)).unwrap();
    assert_eq!(sched.admitted_budget_ns(), 700_000);
    assert_eq!(sched.tick(), Some(ProcessId(1)));
    assert_eq!(sched.admitted_budget_ns(), 400_000);
}

#[test]
fn rejection_reports_projected_budget_and_period() {
    let mut sched = Scheduler::new();
    assert_eq!(sched.period_ns(), 1_000_000);
    sched.try_admit(ProcessId(1), rt(10, 600_000)).unwrap();
    assert_eq!(
        sched.try_admit(ProcessId(2), rt(20, 400_001)),
        Err(AdmissionError::UtilizationExceeded { projected_ns: 1_000_001, period_ns: 1_000_000 })
    );
    // Exactly filling the period is still admitted.
    assert_eq!(sched.try_admit(ProcessId(3), rt(30, 400_000)), Ok(()));
    assert_eq!(sched.admitted_budget_ns(), 1_000_000);
}

#[test]
fn real_time_runs_before_best_effort_which_is_round_robin() {
    let mut sched = Scheduler::default();
    sched.try_admit(ProcessId(10), SchedulingClass::BestEffort).unwrap();
    sched.try_admit(ProcessId(11), SchedulingClass::BestEffort).unwrap();
    sched.try_admit(ProcessId(1), rt(5, 1)).unwrap();
    sched.try_admit(ProcessId(2), rt(5, 1)).unwrap();
    assert_eq!(sched.tick(), Some(ProcessId(1))); // equal deadlines: first admitted
    assert_eq!(sched.tick(), Some(ProcessId(2)));
    assert_eq!(sched.tick(), Some(ProcessId(10)));
    assert_eq!(sched.tick(), Some(ProcessId(11)));
    assert_eq!(sched.tick(), None);
}

#[test]
fn tightest_deadline_is_the_earliest_queued_deadline() {
    let mut sched = Scheduler::with_period(10_000_000);
    assert_eq!(sched.tightest_deadline(), None);
    sched.try_admit(ProcessId(1), rt(9_000_000, 1)).unwrap();
    sched.try_admit(ProcessId(2), rt(1_000_000, 1)).unwrap();
    sched.try_admit(ProcessId(3), SchedulingClass::BestEffort).unwrap();
    assert_eq!(sched.tightest_deadline(), Some(Duration::from_nanos(1_000_000)));
    sched.tick();
    assert_eq!(sched.tightest_deadline(), Some(Duration::from_nanos(9_000_000)));
}
