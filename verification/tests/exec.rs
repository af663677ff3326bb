use slimg::exec::{
    classify_format, next_runnable_task_index, plan_tasks_with_resources, BatchScheduler, ExecutionMode, SchedulerStep,
    HostResources, PlannedTask, SchedulingLane, TaskSpec, WorkloadClass,
};
use slimg::format::Format;

#[test]
fn balanced_desktop_plan_assigns_expected_thread_budgets() {
    let plan = plan_tasks_with_resources(
        ExecutionMode::BalancedDesktop,
        HostResources::from_available_parallelism(8),
        vec![
            TaskSpec { input: "jpeg", workload_class: WorkloadClass::SingleThreadDominant },
            TaskSpec { input: "avif", workload_class: WorkloadClass::InternallyThreaded },
        ],
    );

    assert_eq!(plan.usable_cores, 7);
    assert_eq!(plan.tasks[0].thread_budget, 1);
    assert_eq!(plan.tasks[0].lane, SchedulingLane::SingleThread);
    assert_eq!(plan.tasks[1].thread_budget, 4);
    assert_eq!(plan.tasks[1].lane, SchedulingLane::Threaded);
}

#[test]
fn classify_format_marks_avif_and_jxl_as_threaded() {
    assert_eq!(classify_format(Format::Avif), WorkloadClass::InternallyThreaded);
    assert_eq!(classify_format(Format::Jxl), WorkloadClass::InternallyThreaded);
    assert_eq!(classify_format(Format::Jpeg), WorkloadClass::SingleThreadDominant);
}

#[test]
fn host_resources_keep_one_core_free() {
    assert_eq!(
        HostResources::from_available_parallelism(0),
        HostResources { available_parallelism: 1, usable_cores: 1 }
    );
    assert_eq!(
        HostResources::from_available_parallelism(2),
        HostResources { available_parallelism: 2, usable_cores: 1 }
    );
    assert_eq!(
        HostResources::from_available_parallelism(16),
        HostResources { available_parallelism: 16, usable_cores: 15 }
    );
}

#[test]
fn small_machines_cap_threaded_budget() {
    let plan = plan_tasks_with_resources(
        ExecutionMode::BalancedDesktop,
        HostResources::from_available_parallelism(3),
        vec![TaskSpec { input: 0u8, workload_class: WorkloadClass::InternallyThreaded }],
    );
    assert_eq!(plan.usable_cores, 2);
    assert_eq!(plan.max_concurrent_files, 2);
    assert_eq!(plan.tasks[0].thread_budget, 2);
    assert_eq!(plan.tasks[0].slot_cost, 2);
}

fn task(class: WorkloadClass, cost: usize) -> Option<PlannedTask<u8>> {
    Some(PlannedTask {
        input: 0,
        workload_class: class,
        lane: SchedulingLane::SingleThread,
        thread_budget: cost,
        slot_cost: cost,
    })
}

#[test]
fn next_runnable_skips_started_and_oversized_tasks() {
    let pending = vec![None, task(WorkloadClass::InternallyThreaded, 4), task(WorkloadClass::SingleThreadDominant, 1)];
    assert_eq!(next_runnable_task_index(&pending, 7, 0, false), Some(1));
    assert_eq!(next_runnable_task_index(&pending, 7, 4, false), Some(2));
    assert_eq!(next_runnable_task_index(&pending, 7, 0, true), Some(2));
    assert_eq!(next_runnable_task_index(&pending, 7, 7, false), None);
}

#[test]
fn scheduler_runs_one_threaded_task_at_a_time() {
    let plan = plan_tasks_with_resources(
        ExecutionMode::BalancedDesktop,
        HostResources::from_available_parallelism(8),
        vec![
            TaskSpec { input: 0usize, workload_class: WorkloadClass::InternallyThreaded },
            TaskSpec { input: 1usize, workload_class: WorkloadClass::InternallyThreaded },
            TaskSpec { input: 2usize, workload_class: WorkloadClass::SingleThreadDominant },
        ],
    );
    let mut scheduler = BatchScheduler::new(plan);
    let (first, _) = scheduler.start_next().expect("first task starts");
    assert_eq!(first, 0);
    let (second, _) = scheduler.start_next().expect("single-threaded task starts alongside");
    assert_eq!(second, 2);
    assert!(scheduler.start_next().is_none(), "second threaded task must wait");
    assert_eq!(scheduler.next_step(), SchedulerStep::WaitForResult);
    assert_eq!(scheduler.started_count(), 2);
    assert!(scheduler.is_running(0));
    scheduler.finish(0);
    let (third, _) = scheduler.start_next().expect("threaded lane is free again");
    assert_eq!(third, 1);
    scheduler.finish(2);
    scheduler.finish(1);
    assert!(scheduler.all_started_finished());
    assert!(!scheduler.has_work());
    assert_eq!(scheduler.next_step(), SchedulerStep::Stop);
}

#[test]
fn canceled_scheduler_starts_nothing() {
    let plan = plan_tasks_with_resources(
        ExecutionMode::BalancedDesktop,
        HostResources::from_available_parallelism(4),
        vec![
            TaskSpec { input: 0usize, workload_class: WorkloadClass::InternallyThreaded },
            TaskSpec { input: 1usize, workload_class: WorkloadClass::SingleThreadDominant },
        ],
    );
    let mut scheduler = BatchScheduler::new(plan);
    assert!(scheduler.start_next().is_some());
    scheduler.cancel();
    assert!(scheduler.canceled());
    assert!(scheduler.start_next().is_none());
    assert_eq!(scheduler.pending_count(), 1);
    assert_eq!(scheduler.started_count(), 1);
}
