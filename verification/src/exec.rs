use vstd::prelude::*;

use crate::format::Format;

verus! {

/// How a batch of conversions is scheduled.
#[derive(Debug, Clone, Copy, PartialEq, Eq, Structural)]
pub enum ExecutionMode {
    BalancedDesktop,
}

/// Whether a codec mostly runs on one core or parallelizes internally.
#[derive(Debug, Clone, Copy, PartialEq, Eq, Structural)]
pub enum WorkloadClass {
    SingleThreadDominant,
    InternallyThreaded,
}

/// The lane a planned task is scheduled in.
#[derive(Debug, Clone, Copy, PartialEq, Eq, Structural)]
pub enum SchedulingLane {
    SingleThread,
    Threaded,
}

/// A unit of work submitted for planning.
#[derive(Debug, Clone, PartialEq, Eq)]
pub struct TaskSpec<T> {
    pub input: T,
    pub workload_class: WorkloadClass,
}

/// A task together with its lane, thread budget and core cost.
#[derive(Debug, Clone, PartialEq, Eq)]
pub struct PlannedTask<T> {
    pub input: T,
    pub workload_class: WorkloadClass,
    pub lane: SchedulingLane,
    pub thread_budget: usize,
    pub slot_cost: usize,
}

/// The full schedule for a batch.
#[derive(Debug, Clone, PartialEq, Eq)]
pub struct ExecutionPlan<T> {
    pub mode: ExecutionMode,
    pub usable_cores: usize,
    pub max_concurrent_files: usize,
    pub tasks: Vec<PlannedTask<T>>,
}

/// Outcome of running a plan: one slot per task, in plan order.
#[derive(Debug, Clone, PartialEq, Eq)]
pub struct ExecutionReport<R> {
    pub results: Vec<Option<R>>,
    pub started_count: usize,
    pub canceled: bool,
}

/// Processor resources available to a batch.
#[derive(Debug, Clone, Copy, PartialEq, Eq, Structural)]
pub struct HostResources {
    pub available_parallelism: usize,
    pub usable_cores: usize,
}

impl HostResources {
    /// Derive the resources from the reported parallelism: one core is kept
    /// free for the rest of the system, but at least one core is usable.
    pub fn from_available_parallelism(available_parallelism: usize) -> (r: HostResources)
        ensures
            r.available_parallelism == (if available_parallelism == 0 {
                1
            } else {
                available_parallelism
            }),
            r.usable_cores == (if available_parallelism <= 2 {
                1
            } else {
                available_parallelism - 1
            }),
    {
        let available_parallelism = if available_parallelism == 0 {
            1
        } else {
            available_parallelism
        };
        let usable_cores = if available_parallelism <= 1 {
            1
        } else {
            available_parallelism - 1
        };
        HostResources { usable_cores, available_parallelism }
    }
}

/// Workload class of each format's encoder.
pub open spec fn spec_classify(format: Format) -> WorkloadClass {
    match format {
        Format::Avif | Format::Jxl => WorkloadClass::InternallyThreaded,
        Format::Jpeg | Format::Png | Format::WebP | Format::Qoi => WorkloadClass::SingleThreadDominant,
    }
}

/// AVIF and JPEG XL encoders parallelize internally; the others do not.
pub fn classify_format(format: Format) -> (r: WorkloadClass)
    ensures
        r == spec_classify(format),
{
    match format {
        Format::Avif | Format::Jxl => WorkloadClass::InternallyThreaded,
        Format::Jpeg | Format::Png | Format::WebP | Format::Qoi => WorkloadClass::SingleThreadDominant,
    }
}

/// Usable cores as the planner sees them (never fewer than one).
pub open spec fn planned_cores(resources: HostResources) -> int {
    if resources.usable_cores == 0 {
        1
    } else {
        resources.usable_cores as int
    }
}

/// Thread budget of a task of class `class` when `cores` cores are usable:
/// one thread for single-threaded codecs, up to four for threaded ones.
pub open spec fn planned_budget(class: WorkloadClass, cores: int) -> int {
    match class {
        WorkloadClass::SingleThreadDominant => 1,
        WorkloadClass::InternallyThreaded => if cores < 4 {
            cores
        } else {
            4
        },
    }
}

/// Scheduling lane of a task of class `class`.
pub open spec fn planned_lane(class: WorkloadClass) -> SchedulingLane {
    match class {
        WorkloadClass::SingleThreadDominant => SchedulingLane::SingleThread,
        WorkloadClass::InternallyThreaded => SchedulingLane::Threaded,
    }
}

/// Whether `p` is the planned form of `t` when `cores` cores are usable.
pub open spec fn is_planned_from<T>(p: PlannedTask<T>, t: TaskSpec<T>, cores: int) -> bool {
    &&& p.input == t.input
    &&& p.workload_class == t.workload_class
    &&& p.lane == planned_lane(t.workload_class)
    &&& p.thread_budget == planned_budget(t.workload_class, cores)
    &&& p.slot_cost == (if planned_budget(t.workload_class, cores) < 1 {
        1
    } else {
        planned_budget(t.workload_class, cores)
    })
}

/// Plan a batch: each task keeps its input and class, and gets the lane,
/// thread budget and core cost of its class.
pub fn plan_tasks_with_resources<T>(
    mode: ExecutionMode,
    resources: HostResources,
    tasks: Vec<TaskSpec<T>>,
) -> (plan: ExecutionPlan<T>)
    ensures
        plan.mode == mode,
        plan.usable_cores == planned_cores(resources),
        plan.max_concurrent_files == planned_cores(resources),
        plan.tasks@.len() == tasks@.len(),
        forall|i: int|
            0 <= i < tasks@.len() ==> is_planned_from(
                #[trigger] plan.tasks@[i],
                tasks@[i],
                planned_cores(resources),
            ),
{
    let usable_cores: usize = if resources.usable_cores == 0 {
        1
    } else {
        resources.usable_cores
    };
    let ghost specs = tasks@;
    let mut planned: Vec<PlannedTask<T>> = Vec::new();
    for task in it: tasks.into_iter()
        invariant
            it.seq() == specs,
            usable_cores == planned_cores(resources),
            planned@.len() == it.index(),
            forall|i: int|
                0 <= i < it.index() ==> is_planned_from(
                    #[trigger] planned@[i],
                    specs[i],
                    usable_cores as int,
                ),
    {
        let (lane, thread_budget) = match task.workload_class {
            WorkloadClass::SingleThreadDominant => (SchedulingLane::SingleThread, 1usize),
            WorkloadClass::InternallyThreaded => (
                SchedulingLane::Threaded,
                if usable_cores < 4 {
                    usable_cores
                } else {
                    4
                },
            ),
        };
        let slot_cost = match task.workload_class {
            WorkloadClass::SingleThreadDominant => 1,
            WorkloadClass::InternallyThreaded => if thread_budget < 1 {
                1
            } else {
                thread_budget
            },
        };
        planned.push(
            PlannedTask {
                input: task.input,
                workload_class: task.workload_class,
                lane,
                thread_budget,
                slot_cost,
            },
        );
    }
    ExecutionPlan {
        mode,
        usable_cores,
        max_concurrent_files: usable_cores,
        tasks: planned,
    }
}

/// Every planned task fits the machine: its budget and its core cost lie
/// between one and the usable core count, and threaded tasks never get
/// more than four threads.
pub proof fn planned_tasks_fit_the_machine<T>(p: PlannedTask<T>, t: TaskSpec<T>, resources: HostResources)
    requires
        is_planned_from(p, t, planned_cores(resources)),
    ensures
        1 <= p.thread_budget <= planned_cores(resources),
        1 <= p.slot_cost <= planned_cores(resources),
        p.thread_budget <= 4,
        p.slot_cost == p.thread_budget,
        (p.lane == SchedulingLane::Threaded) == (p.workload_class == WorkloadClass::InternallyThreaded),
{
}

/// Whether a pending task may start now: it fits the cores that remain and,
/// if it is internally threaded, no other threaded task is running.
pub open spec fn is_runnable<T>(
    task: Option<PlannedTask<T>>,
    usable_cores: int,
    used_cores: int,
    threaded_running: bool,
) -> bool {
    match task {
        None => false,
        Some(t) => {
            let remaining = if used_cores > usable_cores {
                0
            } else {
                usable_cores - used_cores
            };
            &&& t.slot_cost <= remaining
            &&& !(threaded_running && t.workload_class == WorkloadClass::InternallyThreaded)
        },
    }
}

/// Index of the first pending task that may start now, if any.
pub fn next_runnable_task_index<T>(
    pending: &[Option<PlannedTask<T>>],
    usable_cores: usize,
    used_cores: usize,
    threaded_running: bool,
) -> (r: Option<usize>)
    ensures
        match r {
            Some(i) => {
                &&& i < pending@.len()
                &&& is_runnable(pending@[i as int], usable_cores as int, used_cores as int, threaded_running)
                &&& forall|j: int| 0 <= j < i ==> !is_runnable(#[trigger] pending@[j], usable_cores as int, used_cores as int, threaded_running)
            },
            None => forall|j: int|
                0 <= j < pending@.len() ==> !is_runnable(#[trigger] pending@[j], usable_cores as int, used_cores as int, threaded_running),
        },
{
    let remaining_cores = if used_cores > usable_cores {
        0
    } else {
        usable_cores - used_cores
    };
    let mut i: usize = 0;
    while i < pending.len()
        invariant
            i <= pending@.len(),
            remaining_cores == (if used_cores > usable_cores {
                0
            } else {
                usable_cores - used_cores
            }),
            forall|j: int| 0 <= j < i ==> !is_runnable(#[trigger] pending@[j], usable_cores as int, used_cores as int, threaded_running),
        decreases pending@.len() - i,
    {
        match &pending[i] {
            None => {},
            Some(task) => {
                if task.slot_cost <= remaining_cores && !(threaded_running && task.workload_class
                    == WorkloadClass::InternallyThreaded) {
                    return Some(i);
                }
            },
        }
        i = i + 1;
    }
    None
}

/// Sum of `weight` over the elements of a sequence.
pub open spec fn total<A>(s: Seq<A>, weight: spec_fn(A) -> int) -> int
    decreases s.len(),
{
    if s.len() == 0 {
        0
    } else {
        total(s.drop_last(), weight) + weight(s.last())
    }
}

/// One for a task that is still waiting to start.
pub open spec fn pending_weight<T>() -> spec_fn(Option<PlannedTask<T>>) -> int {
    |t: Option<PlannedTask<T>>| if t is Some {
        1int
    } else {
        0int
    }
}

/// One for a task that is running.
pub open spec fn running_weight() -> spec_fn(Option<(WorkloadClass, usize)>) -> int {
    |r: Option<(WorkloadClass, usize)>| if r is Some {
        1int
    } else {
        0int
    }
}

/// The cores a running task occupies.
pub open spec fn cost_weight() -> spec_fn(Option<(WorkloadClass, usize)>) -> int {
    |r: Option<(WorkloadClass, usize)>| match r {
        Some((_, cost)) => cost as int,
        None => 0int,
    }
}

/// One for a running internally threaded task.
pub open spec fn threaded_weight() -> spec_fn(Option<(WorkloadClass, usize)>) -> int {
    |r: Option<(WorkloadClass, usize)>| match r {
        Some((WorkloadClass::InternallyThreaded, _)) => 1int,
        _ => 0int,
    }
}

proof fn lemma_total_update<A>(s: Seq<A>, i: int, a: A, weight: spec_fn(A) -> int)
    requires
        0 <= i < s.len(),
    ensures
        total(s.update(i, a), weight) == total(s, weight) - weight(s[i]) + weight(a),
    decreases s.len(),
{
    if i == s.len() - 1 {
        assert(s.update(i, a).drop_last() =~= s.drop_last());
    } else {
        lemma_total_update(s.drop_last(), i, a, weight);
        assert(s.update(i, a).drop_last() =~= s.drop_last().update(i, a));
    }
}

proof fn lemma_total_nonneg_at<A>(s: Seq<A>, i: int, weight: spec_fn(A) -> int)
    requires
        0 <= i < s.len(),
        forall|x: A| #[trigger] weight(x) >= 0,
    ensures
        total(s, weight) >= weight(s[i]),
        total(s, weight) >= 0,
    decreases s.len(),
{
    lemma_total_nonneg(s.drop_last(), weight);
    if i < s.len() - 1 {
        lemma_total_nonneg_at(s.drop_last(), i, weight);
    }
}

proof fn lemma_total_nonneg<A>(s: Seq<A>, weight: spec_fn(A) -> int)
    requires
        forall|x: A| #[trigger] weight(x) >= 0,
    ensures
        total(s, weight) >= 0,
    decreases s.len(),
{
    if s.len() > 0 {
        lemma_total_nonneg(s.drop_last(), weight);
    }
}

proof fn lemma_total_all_none<A>(n: nat, weight: spec_fn(Option<A>) -> int)
    requires
        weight(None) == 0,
    ensures
        total(Seq::new(n, |i: int| None::<A>), weight) == 0,
    decreases n,
{
    if n > 0 {
        lemma_total_all_none((n - 1) as nat, weight);
        assert(Seq::new(n, |i: int| None::<A>).drop_last() =~= Seq::new((n - 1) as nat, |i: int| None::<A>));
    }
}

proof fn lemma_total_all_some<T>(s: Seq<Option<PlannedTask<T>>>)
    requires
        forall|i: int| 0 <= i < s.len() ==> s[i] is Some,
    ensures
        total(s, pending_weight::<T>()) == s.len(),
    decreases s.len(),
{
    if s.len() > 0 {
        lemma_total_all_some(s.drop_last());
    }
}

/// The state of a running batch as the specifications see it.
pub struct SchedulerView<T> {
    /// Tasks not started yet, by plan index (`None` once started).
    pub pending: Seq<Option<PlannedTask<T>>>,
    /// Class and core cost of each running task, by plan index.
    pub running: Seq<Option<(WorkloadClass, usize)>>,
    /// Cores the batch may use.
    pub usable_cores: int,
    /// Cores taken by running tasks.
    pub used_cores: int,
    /// Whether an internally threaded task is running.
    pub threaded_running: bool,
    /// Tasks still waiting.
    pub pending_count: int,
    /// Tasks started so far.
    pub started_count: int,
    /// Tasks finished so far.
    pub completed_count: int,
    /// Whether scheduling was canceled.
    pub canceled: bool,
}

impl<T> SchedulerView<T> {
    /// The bookkeeping matches the tasks: counts and used cores are those of
    /// the pending and running tasks, no task is both, the running tasks fit
    /// the usable cores, and at most one internally threaded task runs.
    pub open spec fn wf(self) -> bool {
        &&& self.pending.len() == self.running.len()
        &&& forall|i: int| 0 <= i < self.pending.len() ==> !(self.pending[i] is Some && self.running[i] is Some)
        &&& self.pending_count == total(self.pending, pending_weight::<T>())
        &&& self.started_count == self.pending.len() - self.pending_count
        &&& self.completed_count == self.started_count - total(self.running, running_weight())
        &&& self.used_cores == total(self.running, cost_weight())
        &&& self.used_cores <= self.usable_cores
        &&& self.threaded_running == (total(self.running, threaded_weight()) > 0)
        &&& total(self.running, threaded_weight()) <= 1
    }
}

/// The run loop's next move.
#[derive(Debug, Clone, Copy, PartialEq, Eq, Structural)]
pub enum SchedulerStep {
    /// Nothing runs and nothing more will start.
    Stop,
    /// Nothing runs, but tasks wait: look for startable tasks again.
    Continue,
    /// Wait for a running task to report its result.
    WaitForResult,
}

/// Bookkeeping for running a plan: which tasks wait, which run, and the
/// cores they take. The caller runs the tasks and reports each finish.
pub struct BatchScheduler<T> {
    pending: Vec<Option<PlannedTask<T>>>,
    running: Vec<Option<(WorkloadClass, usize)>>,
    usable_cores: usize,
    used_cores: usize,
    threaded_running: bool,
    pending_count: usize,
    started_count: usize,
    completed_count: usize,
    canceled: bool,
}

impl<T> View for BatchScheduler<T> {
    type V = SchedulerView<T>;

    closed spec fn view(&self) -> SchedulerView<T> {
        SchedulerView {
            pending: self.pending@,
            running: self.running@,
            usable_cores: self.usable_cores as int,
            used_cores: self.used_cores as int,
            threaded_running: self.threaded_running,
            pending_count: self.pending_count as int,
            started_count: self.started_count as int,
            completed_count: self.completed_count as int,
            canceled: self.canceled,
        }
    }
}

/// Whether a running task at a slot is internally threaded.
fn running_is_threaded(slot: &Option<(WorkloadClass, usize)>) -> (r: bool)
    ensures
        r == (threaded_weight()(*slot) == 1),
{
    match slot {
        Some((WorkloadClass::InternallyThreaded, _)) => true,
        _ => false,
    }
}

impl<T> BatchScheduler<T> {
    /// Start scheduling a plan: every task waits, nothing runs.
    pub fn new(plan: ExecutionPlan<T>) -> (r: BatchScheduler<T>)
        ensures
            r@.wf(),
            r@.pending == plan.tasks@.map_values(|t: PlannedTask<T>| Some(t)),
            r@.running == Seq::new(plan.tasks@.len(), |i: int| None::<(WorkloadClass, usize)>),
            r@.usable_cores == plan.usable_cores,
            r@.used_cores == 0,
            !r@.threaded_running,
            r@.started_count == 0,
            r@.completed_count == 0,
            !r@.canceled,
    {
        let ghost tasks = plan.tasks@;
        let mut pending: Vec<Option<PlannedTask<T>>> = Vec::new();
        let mut running: Vec<Option<(WorkloadClass, usize)>> = Vec::new();
        for task in it: plan.tasks.into_iter()
            invariant
                it.seq() == tasks,
                pending@.len() == it.index(),
                running@ == Seq::new(it.index() as nat, |i: int| None::<(WorkloadClass, usize)>),
                forall|i: int| 0 <= i < it.index() ==> #[trigger] pending@[i] == Some(tasks[i]),
        {
            pending.push(Some(task));
            running.push(None);
            proof {
                assert(running@ =~= Seq::new((it.index() + 1) as nat, |i: int| None::<(WorkloadClass, usize)>));
            }
        }
        let count = pending.len();
        proof {
            assert(pending@ =~= tasks.map_values(|t: PlannedTask<T>| Some(t)));
            lemma_total_all_some(pending@);
            lemma_total_all_none(running@.len(), running_weight());
            lemma_total_all_none(running@.len(), cost_weight());
            lemma_total_all_none(running@.len(), threaded_weight());
        }
        BatchScheduler {
            pending,
            running,
            usable_cores: plan.usable_cores,
            used_cores: 0,
            threaded_running: false,
            pending_count: count,
            started_count: 0,
            completed_count: 0,
            canceled: false,
        }
    }

    /// Stop starting new tasks; running ones still finish.
    pub fn cancel(&mut self)
        requires
            old(self)@.wf(),
        ensures
            final(self)@ == (SchedulerView { canceled: true, ..old(self)@ }),
    {
        self.canceled = true;
    }

    /// Whether scheduling was canceled.
    pub fn canceled(&self) -> (r: bool)
        ensures
            r == self@.canceled,
    {
        self.canceled
    }

    /// Tasks started so far.
    pub fn started_count(&self) -> (r: usize)
        ensures
            r == self@.started_count,
    {
        self.started_count
    }

    /// Tasks still waiting to start.
    pub fn pending_count(&self) -> (r: usize)
        ensures
            r == self@.pending_count,
    {
        self.pending_count
    }

    /// Whether some task is running or still waiting.
    pub fn has_work(&self) -> (r: bool)
        ensures
            r == (self@.completed_count < self@.started_count || self@.pending_count > 0),
    {
        self.completed_count < self.started_count || self.pending_count > 0
    }

    /// What the run loop does once no further task can start now: stop when
    /// every started task has finished and nothing waits (or scheduling was
    /// canceled), look for startable tasks again when every started task has
    /// finished but some wait, and otherwise wait for a running task.
    pub fn next_step(&self) -> (r: SchedulerStep)
        ensures
            r == (if self@.completed_count == self@.started_count {
                if self@.pending_count == 0 || self@.canceled {
                    SchedulerStep::Stop
                } else {
                    SchedulerStep::Continue
                }
            } else {
                SchedulerStep::WaitForResult
            }),
    {
        if self.completed_count == self.started_count {
            if self.pending_count == 0 || self.canceled {
                SchedulerStep::Stop
            } else {
                SchedulerStep::Continue
            }
        } else {
            SchedulerStep::WaitForResult
        }
    }

    /// Whether every started task has finished.
    pub fn all_started_finished(&self) -> (r: bool)
        ensures
            r == (self@.completed_count == self@.started_count),
    {
        self.completed_count == self.started_count
    }

    /// Whether the task at `index` is running.
    pub fn is_running(&self, index: usize) -> (r: bool)
        ensures
            r == (index < self@.running.len() && self@.running[index as int] is Some),
    {
        index < self.running.len() && self.running[index].is_some()
    }

    /// Unless canceled, start the first waiting task that may run now (see
    /// [`next_runnable_task_index`]) and hand it out with its index.
    pub fn start_next(&mut self) -> (r: Option<(usize, PlannedTask<T>)>)
        requires
            old(self)@.wf(),
        ensures
            final(self)@.wf(),
            final(self)@.usable_cores == old(self)@.usable_cores,
            final(self)@.canceled == old(self)@.canceled,
            final(self)@.completed_count == old(self)@.completed_count,
            match r {
                None => {
                    &&& final(self)@ == old(self)@
                    &&& (old(self)@.canceled || forall|j: int| 0 <= j < old(self)@.pending.len() ==> !is_runnable(
                        #[trigger] old(self)@.pending[j],
                        old(self)@.usable_cores,
                        old(self)@.used_cores,
                        old(self)@.threaded_running,
                    ))
                },
                Some((i, task)) => {
                    let old_view = old(self)@;
                    &&& !old_view.canceled
                    &&& i < old_view.pending.len()
                    &&& old_view.pending[i as int] == Some(task)
                    &&& is_runnable(old_view.pending[i as int], old_view.usable_cores, old_view.used_cores, old_view.threaded_running)
                    &&& forall|j: int| 0 <= j < i ==> !is_runnable(#[trigger] old_view.pending[j], old_view.usable_cores, old_view.used_cores, old_view.threaded_running)
                    &&& final(self)@.pending == old_view.pending.update(i as int, None)
                    &&& final(self)@.running == old_view.running.update(i as int, Some((task.workload_class, task.slot_cost)))
                    &&& final(self)@.used_cores == old_view.used_cores + task.slot_cost
                    &&& final(self)@.started_count == old_view.started_count + 1
                    &&& final(self)@.threaded_running == (old_view.threaded_running || task.workload_class == WorkloadClass::InternallyThreaded)
                },
            },
    {
        if self.canceled {
            return None;
        }
        let index = match next_runnable_task_index(self.pending.as_slice(), self.usable_cores, self.used_cores, self.threaded_running) {
            Some(index) => index,
            None => {
                return None;
            },
        };
        let ghost old_view = self@;
        self.pending.push(None);
        let taken = self.pending.swap_remove(index);
        proof {
            assert(self.pending@ =~= old_view.pending.update(index as int, None));
        }
        let task = match taken {
            Some(task) => task,
            None => {
                proof {
                    assert(false);
                }
                return None;
            },
        };
        let class = task.workload_class;
        let cost = task.slot_cost;
        self.running.set(index, Some((class, cost)));
        proof {
            lemma_total_update(old_view.pending, index as int, None, pending_weight::<T>());
            lemma_total_nonneg_at(old_view.pending, index as int, pending_weight::<T>());
            assert(self.pending@.len() == self.pending.len());
            lemma_total_update(old_view.running, index as int, Some((class, cost)), running_weight());
            lemma_total_update(old_view.running, index as int, Some((class, cost)), cost_weight());
            lemma_total_update(old_view.running, index as int, Some((class, cost)), threaded_weight());
            lemma_total_nonneg(old_view.running, threaded_weight());
            assert forall|j: int| 0 <= j < self.pending@.len() implies !(self.pending@[j] is Some && self.running@[j] is Some) by {
                if j != index {
                    assert(!(old_view.pending[j] is Some && old_view.running[j] is Some));
                }
            }
        }
        self.pending_count = self.pending_count - 1;
        self.started_count = self.started_count + 1;
        self.used_cores = self.used_cores + cost;
        if class == WorkloadClass::InternallyThreaded {
            self.threaded_running = true;
        }
        Some((index, task))
    }

    /// Record that the running task at `index` finished: its cores are
    /// free again, and so is the threaded lane if it was threaded.
    pub fn finish(&mut self, index: usize)
        requires
            old(self)@.wf(),
            index < old(self)@.running.len(),
            old(self)@.running[index as int] is Some,
        ensures
            final(self)@.wf(),
            final(self)@.pending == old(self)@.pending,
            final(self)@.running == old(self)@.running.update(index as int, None),
            final(self)@.usable_cores == old(self)@.usable_cores,
            final(self)@.used_cores == old(self)@.used_cores - old(self)@.running[index as int].unwrap().1,
            final(self)@.threaded_running == (old(self)@.threaded_running && old(self)@.running[index as int].unwrap().0 != WorkloadClass::InternallyThreaded),
            final(self)@.started_count == old(self)@.started_count,
            final(self)@.completed_count == old(self)@.completed_count + 1,
            final(self)@.canceled == old(self)@.canceled,
    {
        let ghost old_view = self@;
        let threaded = running_is_threaded(&self.running[index]);
        let cost = match self.running[index] {
            Some((_, cost)) => cost,
            None => 0,
        };
        self.running.set(index, None);
        proof {
            let slot = old_view.running[index as int];
            lemma_total_update(old_view.running, index as int, None, running_weight());
            lemma_total_update(old_view.running, index as int, None, cost_weight());
            lemma_total_update(old_view.running, index as int, None, threaded_weight());
            lemma_total_nonneg_at(old_view.running, index as int, running_weight());
            lemma_total_nonneg_at(old_view.running, index as int, cost_weight());
            lemma_total_nonneg_at(old_view.running, index as int, threaded_weight());
            lemma_total_nonneg(self.running@, threaded_weight());
        }
        self.completed_count = self.completed_count + 1;
        self.used_cores = self.used_cores - cost;
        if threaded {
            self.threaded_running = false;
        }
    }
}

/// Whatever tasks start and finish, the running tasks never take more cores
/// than the batch may use, and at most one internally threaded task runs at
/// a time.
pub proof fn scheduler_respects_core_budget<T>(view: SchedulerView<T>)
    requires
        view.wf(),
    ensures
        view.used_cores <= view.usable_cores,
        total(view.running, threaded_weight()) <= 1,
        view.threaded_running <==> total(view.running, threaded_weight()) == 1,
        view.completed_count <= view.started_count,
{
    lemma_total_nonneg(view.running, threaded_weight());
    lemma_total_nonneg(view.running, running_weight());
}

/// Exactly the AVIF and JPEG XL encoders are internally threaded.
pub proof fn only_avif_and_jxl_are_threaded(format: Format)
    ensures
        (spec_classify(format) == WorkloadClass::InternallyThreaded) <==> (format == Format::Avif || format == Format::Jxl),
        (spec_classify(format) == WorkloadClass::SingleThreadDominant) <==> !(format == Format::Avif || format
            == Format::Jxl),
{
}

/// A pending task may start whenever its cost fits the cores that remain
/// (equal counts included) and it does not need the threaded lane while
/// another threaded task runs; with nothing running, every task whose cost
/// is at most the usable cores may start.
pub proof fn fitting_task_is_runnable<T>(task: PlannedTask<T>, usable_cores: int, used_cores: int, threaded_running: bool)
    ensures
        0 <= used_cores <= usable_cores && task.slot_cost <= usable_cores - used_cores && !(threaded_running
            && task.workload_class == WorkloadClass::InternallyThreaded) ==> is_runnable(
            Some(task),
            usable_cores,
            used_cores,
            threaded_running,
        ),
        task.slot_cost <= usable_cores ==> is_runnable(Some(task), usable_cores, 0, false),
        is_runnable(Some(task), usable_cores, used_cores, threaded_running) ==> task.slot_cost + used_cores <= usable_cores
            || (used_cores > usable_cores && task.slot_cost == 0),
{
}

} // verus!
