//! The round-robin scheduler: a table of tasks and the choice of the task
//! that runs next.
//!
//! One task runs at a time. When it yields it becomes ready again, when it
//! exits it is finished for good. The next task is the first ready one found
//! when the table is scanned in a circle, beginning just behind the running
//! task. Switching the hart from one task to the other is left to the code
//! around this crate: it is told which task to leave and which to enter.

use vstd::prelude::*;
use crate::batch::MAX_APP_NUM;

verus! {

/// Where a task stands.
#[derive(Copy, Clone, PartialEq, Eq, Debug, Structural)]
pub enum TaskStatus {
    /// The entry holds no task.
    Uninitialized,
    /// The task can run.
    Ready,
    /// The task runs.
    Running,
    /// The task is over.
    Finished,
}

/// One entry of the task table: the saved stack pointer of the task, where
/// its kernel context lies, and its status.
#[derive(Copy, Clone, PartialEq, Eq, Debug, Structural)]
pub struct TaskControlBlock {
    pub task_cx_ptr: u64,
    pub task_status: TaskStatus,
}

impl TaskControlBlock {
    /// The place where the saved stack pointer of the task is kept, to write
    /// the stack pointer to when the task is left.
    pub fn get_task_ctx_mut2(&mut self) -> (r: &mut u64)
        ensures
            *r == old(self).task_cx_ptr,
            *final(self) == (TaskControlBlock { task_cx_ptr: *final(r), ..*old(self) }),
    {
        &mut self.task_cx_ptr
    }
}

/// The registers that a task keeps across a switch to another task: the
/// return address and the callee-saved registers.
#[derive(Copy, Clone, PartialEq, Eq, Debug, Structural)]
pub struct TaskContext {
    pub ra: u64,
    pub s0: u64,
    pub s1: u64,
    pub s2: u64,
    pub s3: u64,
    pub s4: u64,
    pub s5: u64,
    pub s6: u64,
    pub s7: u64,
    pub s8: u64,
    pub s9: u64,
    pub s10: u64,
    pub s11: u64,
}

impl TaskContext {
    /// The context of a task that has not run yet: when the hart switches to
    /// it, it returns to `restore_trap`, the code that enters user mode.
    pub fn goto_restore(restore_trap: u64) -> (r: TaskContext)
        ensures
            r == (TaskContext {
                ra: restore_trap,
                s0: 0,
                s1: 0,
                s2: 0,
                s3: 0,
                s4: 0,
                s5: 0,
                s6: 0,
                s7: 0,
                s8: 0,
                s9: 0,
                s10: 0,
                s11: 0,
            }),
    {
        TaskContext {
            ra: restore_trap,
            s0: 0,
            s1: 0,
            s2: 0,
            s3: 0,
            s4: 0,
            s5: 0,
            s6: 0,
            s7: 0,
            s8: 0,
            s9: 0,
            s10: 0,
            s11: 0,
        }
    }
}

/// The task table as mathematical values.
pub struct SchedState {
    /// The number of tasks.
    pub num_app: nat,
    /// The index of the running task.
    pub current: nat,
    /// The status of every entry of the table.
    pub statuses: Seq<TaskStatus>,
    /// The saved stack pointer of every entry of the table.
    pub contexts: Seq<u64>,
}

impl SchedState {
    /// The table has [`MAX_APP_NUM`] entries, the tasks are the first
    /// `num_app` of them, and the running task is one of the tasks.
    pub open spec fn wf(self) -> bool {
        &&& self.num_app <= MAX_APP_NUM
        &&& self.statuses.len() == MAX_APP_NUM
        &&& self.contexts.len() == MAX_APP_NUM
        &&& self.current < MAX_APP_NUM
        &&& self.num_app > 0 ==> self.current < self.num_app
    }

    /// The entry that the scan looks at in its step `k`, for `k` from 1 to
    /// `num_app`: the entry `k` places behind the running one, in a circle.
    pub open spec fn slot(self, k: nat) -> nat {
        if self.current + k < self.num_app {
            self.current + k
        } else {
            (self.current + k - self.num_app) as nat
        }
    }

    /// The step of the scan in which it looks at the task `j`: how far `j`
    /// lies behind the running task, in a circle. The running task itself is
    /// looked at last, in step `num_app`.
    pub open spec fn distance(self, j: nat) -> nat {
        if j > self.current {
            (j - self.current) as nat
        } else {
            (j + self.num_app - self.current) as nat
        }
    }

    /// The first ready task that the scan finds from its step `k` on.
    pub open spec fn scan(self, k: nat) -> Option<nat>
        decreases self.num_app + 1 - k,
    {
        if k > self.num_app {
            None
        } else if self.statuses[self.slot(k) as int] == TaskStatus::Ready {
            Some(self.slot(k))
        } else {
            self.scan(k + 1)
        }
    }

    /// The task to run next: the first ready task behind the running one.
    pub open spec fn next_task(self) -> Option<nat> {
        self.scan(1)
    }

    /// The running task becomes ready.
    pub open spec fn mark_suspended(self) -> SchedState {
        SchedState { statuses: self.statuses.update(self.current as int, TaskStatus::Ready), ..self }
    }

    /// The running task becomes finished.
    pub open spec fn mark_finished(self) -> SchedState {
        SchedState { statuses: self.statuses.update(self.current as int, TaskStatus::Finished), ..self }
    }

    /// The next task, if there is one, becomes the running task.
    pub open spec fn run_next(self) -> SchedState {
        match self.next_task() {
            Some(next) => SchedState {
                statuses: self.statuses.update(next as int, TaskStatus::Running),
                current: next,
                ..self
            },
            None => self,
        }
    }

    /// The running task yields, and the next task runs.
    pub open spec fn yield_step(self) -> SchedState {
        self.mark_suspended().run_next()
    }

    /// The running task exits, and the next task runs.
    pub open spec fn exit_step(self) -> SchedState {
        self.mark_finished().run_next()
    }

    /// The table after `t` yields in a row.
    pub open spec fn yield_n(self, t: nat) -> SchedState
        decreases t,
    {
        if t == 0 {
            self
        } else {
            self.yield_n((t - 1) as nat).yield_step()
        }
    }

    /// Whether the task `j` takes part in the round: it is ready, or it is
    /// the running task.
    pub open spec fn runnable(self, j: nat) -> bool {
        j < self.num_app && (self.statuses[j as int] == TaskStatus::Ready || j == self.current)
    }
}

/// Which task to leave and which to enter.
#[derive(Copy, Clone, PartialEq, Eq, Debug, Structural)]
pub struct TaskSwitch {
    /// The task that ran: the stack pointer of the hart is saved into its
    /// entry.
    pub current: usize,
    /// The task to run.
    pub next: usize,
    /// The saved stack pointer of the task to run.
    pub next_task_cx: u64,
}

/// The task table and the task that runs.
#[derive(Debug)]
pub struct TaskManager {
    num_app: usize,
    tasks: Vec<TaskControlBlock>,
    current_task: usize,
}

impl View for TaskManager {
    type V = SchedState;

    closed spec fn view(&self) -> SchedState {
        SchedState {
            num_app: self.num_app as nat,
            current: self.current_task as nat,
            statuses: self.tasks@.map_values(|t: TaskControlBlock| t.task_status),
            contexts: self.tasks@.map_values(|t: TaskControlBlock| t.task_cx_ptr),
        }
    }
}

impl TaskManager {
    /// A table of the tasks whose saved stack pointers are given, all of them
    /// ready, with the first entry as the current one. Fails where there are
    /// more than [`MAX_APP_NUM`] tasks.
    pub fn new(task_cx_ptrs: &Vec<u64>) -> (r: Option<TaskManager>)
        ensures
            r is Some <==> task_cx_ptrs@.len() <= MAX_APP_NUM,
            r matches Some(m) ==> {
                &&& m@.wf()
                &&& m@.num_app == task_cx_ptrs@.len()
                &&& m@.current == 0
                &&& forall|i: int|
                    0 <= i < MAX_APP_NUM ==> #[trigger] m@.statuses[i] == if i < task_cx_ptrs@.len() {
                        TaskStatus::Ready
                    } else {
                        TaskStatus::Uninitialized
                    }
                &&& forall|i: int|
                    0 <= i < MAX_APP_NUM ==> #[trigger] m@.contexts[i] == if i < task_cx_ptrs@.len() {
                        task_cx_ptrs@[i]
                    } else {
                        0
                    }
            },
    {
        let num_app = task_cx_ptrs.len();
        if num_app > MAX_APP_NUM {
            return None;
        }
        let mut tasks: Vec<TaskControlBlock> = Vec::new();
        let mut i: usize = 0;
        while i < MAX_APP_NUM
            invariant
                i <= MAX_APP_NUM,
                num_app == task_cx_ptrs@.len(),
                tasks@.len() == i,
                forall|j: int|
                    0 <= j < i ==> #[trigger] tasks@[j] == if j < num_app {
                        TaskControlBlock { task_cx_ptr: task_cx_ptrs@[j], task_status: TaskStatus::Ready }
                    } else {
                        TaskControlBlock { task_cx_ptr: 0, task_status: TaskStatus::Uninitialized }
                    },
            decreases MAX_APP_NUM - i,
        {
            if i < num_app {
                tasks.push(TaskControlBlock { task_cx_ptr: task_cx_ptrs[i], task_status: TaskStatus::Ready });
            } else {
                tasks.push(TaskControlBlock { task_cx_ptr: 0, task_status: TaskStatus::Uninitialized });
            }
            i += 1;
        }
        Some(TaskManager { num_app, tasks, current_task: 0 })
    }

    /// The index of the running task.
    pub fn current_task(&self) -> (r: usize)
        ensures
            r == self@.current,
    {
        self.current_task
    }

    /// The number of tasks.
    pub fn num_app(&self) -> (r: usize)
        ensures
            r == self@.num_app,
    {
        self.num_app
    }

    /// The status of the entry `id`.
    pub fn task_status(&self, id: usize) -> (r: TaskStatus)
        requires
            self@.wf(),
            id < MAX_APP_NUM,
        ensures
            r == self@.statuses[id as int],
    {
        self.tasks[id].task_status
    }

    /// Keeps the stack pointer that was saved when the task `id` was left.
    pub fn set_task_cx(&mut self, id: usize, task_cx_ptr: u64)
        requires
            old(self)@.wf(),
            id < MAX_APP_NUM,
        ensures
            final(self)@ == (SchedState {
                contexts: old(self)@.contexts.update(id as int, task_cx_ptr),
                ..old(self)@
            }),
    {
        let status = self.tasks[id].task_status;
        self.tasks.set(id, TaskControlBlock { task_cx_ptr, task_status: status });
        assert(self@.statuses =~= old(self)@.statuses);
        assert(self@.contexts =~= old(self)@.contexts.update(id as int, task_cx_ptr));
    }

    /// Starts the first task: it becomes the running one. Returns its saved
    /// stack pointer, to switch to.
    pub fn run_first_task(&mut self) -> (r: u64)
        requires
            old(self)@.wf(),
        ensures
            final(self)@ == (SchedState {
                statuses: old(self)@.statuses.update(0, TaskStatus::Running),
                ..old(self)@
            }),
            r == old(self)@.contexts[0],
    {
        let cx = self.tasks[0].task_cx_ptr;
        self.tasks.set(0, TaskControlBlock { task_cx_ptr: cx, task_status: TaskStatus::Running });
        assert(self@.statuses =~= old(self)@.statuses.update(0, TaskStatus::Running));
        assert(self@.contexts =~= old(self)@.contexts);
        cx
    }

    /// The running task becomes ready.
    pub fn mark_current_suspended(&mut self)
        requires
            old(self)@.wf(),
        ensures
            final(self)@ == old(self)@.mark_suspended(),
    {
        let current = self.current_task;
        let cx = self.tasks[current].task_cx_ptr;
        self.tasks.set(current, TaskControlBlock { task_cx_ptr: cx, task_status: TaskStatus::Ready });
        assert(self@.statuses =~= old(self)@.statuses.update(current as int, TaskStatus::Ready));
        assert(self@.contexts =~= old(self)@.contexts);
    }

    /// The running task becomes finished.
    pub fn mark_current_finished(&mut self)
        requires
            old(self)@.wf(),
        ensures
            final(self)@ == old(self)@.mark_finished(),
    {
        let current = self.current_task;
        let cx = self.tasks[current].task_cx_ptr;
        self.tasks.set(current, TaskControlBlock { task_cx_ptr: cx, task_status: TaskStatus::Finished });
        assert(self@.statuses =~= old(self)@.statuses.update(current as int, TaskStatus::Finished));
        assert(self@.contexts =~= old(self)@.contexts);
    }

    /// The task to run next: the first ready task found in a circular scan
    /// that begins just behind the running task and ends with it. Nothing if
    /// no task is ready.
    pub fn find_next_task(&self) -> (r: Option<usize>)
        requires
            self@.wf(),
        ensures
            match r {
                Some(id) => self@.next_task() == Some(id as nat),
                None => self@.next_task() is None,
            },
    {
        let mut k: usize = 1;
        while k <= self.num_app
            invariant
                self@.wf(),
                1 <= k <= self.num_app + 1,
                self@.scan(k as nat) == self@.next_task(),
            decreases self.num_app + 1 - k,
        {
            let mut id = self.current_task + k;
            if id >= self.num_app {
                id = id - self.num_app;
            }
            assert(id == self@.slot(k as nat));
            if self.tasks[id].task_status == TaskStatus::Ready {
                return Some(id);
            }
            k += 1;
        }
        None
    }

    /// Makes the next task the running one and says which switch to make.
    /// Where no task is ready, nothing changes and nothing is returned: all
    /// tasks are over.
    pub fn run_next_task(&mut self) -> (r: Option<TaskSwitch>)
        requires
            old(self)@.wf(),
        ensures
            final(self)@ == old(self)@.run_next(),
            final(self)@.wf(),
            match r {
                Some(switch) => {
                    &&& old(self)@.next_task() == Some(switch.next as nat)
                    &&& switch.current == old(self)@.current
                    &&& switch.next_task_cx == old(self)@.contexts[switch.next as int]
                },
                None => old(self)@.next_task() is None,
            },
    {
        proof {
            lemma_scan_found(self@, 1);
        }
        match self.find_next_task() {
            Some(next) => {
                let current = self.current_task;
                let cx = self.tasks[next].task_cx_ptr;
                self.tasks.set(next, TaskControlBlock { task_cx_ptr: cx, task_status: TaskStatus::Running });
                self.current_task = next;
                assert(self@.statuses =~= old(self)@.statuses.update(next as int, TaskStatus::Running));
                assert(self@.contexts =~= old(self)@.contexts);
                Some(TaskSwitch { current, next, next_task_cx: cx })
            },
            None => None,
        }
    }
}

/// The running task yields: it becomes ready, and the next task runs.
pub fn suspend_current_and_run_next(manager: &mut TaskManager) -> (r: Option<TaskSwitch>)
    requires
        old(manager)@.wf(),
    ensures
        final(manager)@ == old(manager)@.yield_step(),
        final(manager)@.wf(),
        match r {
            Some(switch) => {
                &&& old(manager)@.mark_suspended().next_task() == Some(switch.next as nat)
                &&& switch.current == old(manager)@.current
                &&& switch.next_task_cx == old(manager)@.contexts[switch.next as int]
            },
            None => old(manager)@.mark_suspended().next_task() is None,
        },
{
    manager.mark_current_suspended();
    manager.run_next_task()
}

/// The running task exits: it becomes finished, and the next task runs.
/// Where no task is ready, all tasks are over.
pub fn exit_current_and_run_next(manager: &mut TaskManager) -> (r: Option<TaskSwitch>)
    requires
        old(manager)@.wf(),
    ensures
        final(manager)@ == old(manager)@.exit_step(),
        final(manager)@.wf(),
        match r {
            Some(switch) => {
                &&& old(manager)@.mark_finished().next_task() == Some(switch.next as nat)
                &&& switch.current == old(manager)@.current
                &&& switch.next_task_cx == old(manager)@.contexts[switch.next as int]
            },
            None => old(manager)@.mark_finished().next_task() is None,
        },
{
    manager.mark_current_finished();
    manager.run_next_task()
}

/// What the scan finds from step `k` on is a ready task, no nearer than `k`
/// steps, and the nearest such; and where it finds nothing, no task from step
/// `k` on is ready.
pub proof fn lemma_scan_found(s: SchedState, k: nat)
    requires
        s.wf(),
        1 <= k,
    ensures
        match s.scan(k) {
            Some(p) => {
                &&& p < s.num_app
                &&& s.statuses[p as int] == TaskStatus::Ready
                &&& k <= s.distance(p) <= s.num_app
                &&& forall|j: nat|
                    j < s.num_app && s.statuses[j as int] == TaskStatus::Ready && k <= s.distance(j) ==> s.distance(
                        p,
                    ) <= #[trigger] s.distance(j)
            },
            None => forall|j: nat|
                j < s.num_app && k <= #[trigger] s.distance(j) ==> s.statuses[j as int] != TaskStatus::Ready,
        },
    decreases s.num_app + 1 - k,
{
    if k <= s.num_app {
        if s.statuses[s.slot(k) as int] != TaskStatus::Ready {
            lemma_scan_found(s, k + 1);
        }
    }
}

/// One yield. The task that runs next takes part in the round, and it is the
/// one behind the running task that does so; a task that takes part in the
/// round keeps doing so; and every such task but the one that runs next has
/// come nearer to its turn by as many steps as the scan took.
pub proof fn lemma_yield_step(s: SchedState, j: nat)
    requires
        s.wf(),
        s.num_app >= 1,
        s.runnable(j),
    ensures
        s.yield_step().wf(),
        s.yield_step().num_app == s.num_app,
        s.runnable(s.yield_step().current),
        s.yield_step().runnable(j),
        1 <= s.distance(s.yield_step().current) <= s.distance(j),
        j != s.yield_step().current ==> s.yield_step().distance(j) == s.distance(j) - s.distance(
            s.yield_step().current,
        ),
        j == s.yield_step().current ==> s.yield_step().distance(j) == s.num_app,
        forall|i: nat| s.yield_step().runnable(i) <==> s.runnable(i),
{
    let m = s.mark_suspended();
    lemma_scan_found(m, 1);
    assert(m.statuses[s.current as int] == TaskStatus::Ready);
    assert(m.distance(s.current) == s.num_app);
    assert(m.next_task() is Some);
    let p = m.next_task()->Some_0;
    assert(m.statuses[j as int] == TaskStatus::Ready);
    assert(m.distance(p) <= m.distance(j));
}

/// Between two turns of a task, no other task of the round is left out.
/// Let `p` be the running task and `j` another task of the round. As long as
/// neither `p` nor `j` has had a turn in the first `m` yields, `j` stays
/// nearer to its turn than `p`: so the next turn is not `p`'s.
pub proof fn lemma_turn_not_skipped(s: SchedState, j: nat, m: nat)
    requires
        s.wf(),
        s.num_app >= 1,
        s.runnable(j),
        j != s.current,
        forall|t: nat| 1 <= t <= m ==> #[trigger] s.yield_n(t).current != j && s.yield_n(t).current != s.current,
    ensures
        s.yield_n(m).wf(),
        s.yield_n(m).num_app == s.num_app,
        s.yield_n(m).runnable(j),
        s.yield_n(m).runnable(s.current),
        s.yield_n(m).distance(j) < s.yield_n(m).distance(s.current),
        s.yield_n(m + 1).current != s.current,
    decreases m,
{
    let p = s.current;
    if m == 0 {
        assert(s.yield_n(0) == s);
        assert(s.distance(p) == s.num_app);
        lemma_yield_step(s, j);
        assert(s.yield_n(1) == s.yield_n(0).yield_step());
    } else {
        assert forall|t: nat| 1 <= t <= (m - 1) as nat implies #[trigger] s.yield_n(t).current != j && s.yield_n(
            t,
        ).current != s.current by {}
        lemma_turn_not_skipped(s, j, (m - 1) as nat);
        let before = s.yield_n((m - 1) as nat);
        let after = s.yield_n(m);
        assert(after == before.yield_step());
        lemma_yield_step(before, j);
        lemma_yield_step(before, p);
        assert(after.current != j && after.current != p);
        lemma_yield_step(after, j);
        assert(s.yield_n(m + 1) == after.yield_step());
    }
}

/// Round robin: before a task has its next turn, every other task of the
/// round has had one. If the running task `p` is the running task again
/// after `m + 1` yields, and not before, then any other task `j` of the round
/// was the running task after one of the first `m` yields.
pub proof fn lemma_round_robin(s: SchedState, j: nat, m: nat)
    requires
        s.wf(),
        s.num_app >= 1,
        s.runnable(j),
        j != s.current,
        s.yield_n(m + 1).current == s.current,
        forall|t: nat| 1 <= t <= m ==> #[trigger] s.yield_n(t).current != s.current,
    ensures
        exists|t: nat| 1 <= t <= m && #[trigger] s.yield_n(t).current == j,
{
    if !(exists|t: nat| 1 <= t <= m && #[trigger] s.yield_n(t).current == j) {
        lemma_turn_not_skipped(s, j, m);
    }
}

/// A finished task has no further turn: whether the running task yields or
/// exits, a finished task stays finished and is not the task that runs next,
/// unless no task is left to run and the hart stays where it is.
pub proof fn lemma_finished_for_good(s: SchedState, j: nat)
    requires
        s.wf(),
        j < s.num_app,
        s.statuses[j as int] == TaskStatus::Finished,
        j != s.current,
    ensures
        s.yield_step().statuses[j as int] == TaskStatus::Finished,
        s.exit_step().statuses[j as int] == TaskStatus::Finished,
        s.yield_step().current != j,
        s.exit_step().current != j,
        s.mark_suspended().next_task() != Some(j),
        s.mark_finished().next_task() != Some(j),
{
    lemma_scan_found(s.mark_suspended(), 1);
    lemma_scan_found(s.mark_finished(), 1);
}

/// A task that exits is finished and has no further turn: after the exit it
/// is finished, and the task that runs next is another one, if there is one.
pub proof fn lemma_exit_finishes(s: SchedState)
    requires
        s.wf(),
    ensures
        s.exit_step().statuses[s.current as int] == TaskStatus::Finished,
        s.mark_finished().next_task() != Some(s.current),
        s.mark_finished().next_task() is None ==> s.exit_step() == s.mark_finished(),
{
    lemma_scan_found(s.mark_finished(), 1);
}

/// One step of the scheduler, as a trace of steps records it.
pub enum SchedStep {
    /// The running task yields.
    Yield,
    /// The running task exits.
    Exit,
}

/// The table after a trace of steps.
pub open spec fn run_steps(s: SchedState, steps: Seq<SchedStep>) -> SchedState
    decreases steps.len(),
{
    if steps.len() == 0 {
        s
    } else {
        match steps.last() {
            SchedStep::Yield => run_steps(s, steps.drop_last()).yield_step(),
            SchedStep::Exit => run_steps(s, steps.drop_last()).exit_step(),
        }
    }
}

/// A finished task never runs again: along any trace of yields and exits of
/// the tasks that run, it stays finished and is never the running task.
pub proof fn lemma_finished_never_runs(s: SchedState, j: nat, steps: Seq<SchedStep>)
    requires
        s.wf(),
        j < s.num_app,
        s.statuses[j as int] == TaskStatus::Finished,
        j != s.current,
    ensures
        run_steps(s, steps).wf(),
        run_steps(s, steps).num_app == s.num_app,
        run_steps(s, steps).statuses[j as int] == TaskStatus::Finished,
        run_steps(s, steps).current != j,
    decreases steps.len(),
{
    if steps.len() > 0 {
        let before = run_steps(s, steps.drop_last());
        lemma_finished_never_runs(s, j, steps.drop_last());
        lemma_finished_for_good(before, j);
        lemma_scan_found(before.mark_suspended(), 1);
        lemma_scan_found(before.mark_finished(), 1);
    }
}

/// Whether exactly one task is marked as running: the running one.
pub open spec fn one_running(s: SchedState) -> bool {
    forall|j: int| 0 <= j < s.num_app ==> (#[trigger] s.statuses[j] == TaskStatus::Running <==> j == s.current)
}

/// Whether no task is marked as running.
pub open spec fn none_running(s: SchedState) -> bool {
    forall|j: int| 0 <= j < s.num_app ==> #[trigger] s.statuses[j] != TaskStatus::Running
}

/// One task runs at a time. Where no task runs and the first one is started,
/// exactly one task runs. After a yield, and after an exit that leaves a task
/// to run, again exactly one task runs, and it was ready before. After the
/// exit of the last task none runs.
pub proof fn lemma_one_running(s: SchedState)
    requires
        s.wf(),
        s.num_app >= 1,
    ensures
        none_running(s) && s.current == 0 ==> one_running(
            SchedState { statuses: s.statuses.update(0, TaskStatus::Running), ..s },
        ),
        one_running(s) ==> one_running(s.yield_step()),
        one_running(s) && s.mark_finished().next_task() is Some ==> one_running(s.exit_step()),
        one_running(s) && s.mark_finished().next_task() is None ==> none_running(s.exit_step()),
        s.mark_suspended().next_task() matches Some(p) ==> s.mark_suspended().statuses[p as int]
            == TaskStatus::Ready,
        s.mark_finished().next_task() matches Some(p) ==> s.statuses[p as int] == TaskStatus::Ready,
{
    lemma_scan_found(s.mark_suspended(), 1);
    lemma_scan_found(s.mark_finished(), 1);
    assert(s.mark_suspended().statuses[s.current as int] == TaskStatus::Ready);
    assert(s.mark_finished().statuses[s.current as int] == TaskStatus::Finished);
    assert(s.mark_suspended().distance(s.current) == s.num_app);
    assert(s.mark_suspended().next_task() is Some);
    if one_running(s) {
        let y = s.yield_step();
        assert forall|j: int| 0 <= j < y.num_app implies (#[trigger] y.statuses[j] == TaskStatus::Running <==> j
            == y.current) by {
            assert(s.statuses[j] == TaskStatus::Running <==> j == s.current);
        }
        let e = s.exit_step();
        if s.mark_finished().next_task() is Some {
            assert forall|j: int| 0 <= j < e.num_app implies (#[trigger] e.statuses[j] == TaskStatus::Running <==> j
                == e.current) by {
                assert(s.statuses[j] == TaskStatus::Running <==> j == s.current);
            }
        } else {
            assert forall|j: int| 0 <= j < e.num_app implies #[trigger] e.statuses[j] != TaskStatus::Running by {
                assert(s.statuses[j] == TaskStatus::Running <==> j == s.current);
            }
        }
    }
    if none_running(s) && s.current == 0 {
        let f = SchedState { statuses: s.statuses.update(0, TaskStatus::Running), ..s };
        assert forall|j: int| 0 <= j < f.num_app implies (#[trigger] f.statuses[j] == TaskStatus::Running <==> j
            == f.current) by {
            assert(s.statuses[j] != TaskStatus::Running);
        }
    }
}

} // verus!
