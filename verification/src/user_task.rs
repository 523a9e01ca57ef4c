//! Cooperative tasks inside one user program: a queue of tasks that are
//! polled in turn until each of them is done.
//!
//! A task is polled, and is put back at the end of the queue when it is not
//! done yet. A task that sleeps is passed over until something wakes it.
//! Polling a task is left to the code around this crate; this module keeps
//! the queue and says which task is next.

use vstd::prelude::*;
use std::collections::VecDeque;

verus! {

/// A task of a user program: which one it is, and whether it sleeps.
#[derive(Copy, Clone, PartialEq, Eq, Debug, Structural)]
pub struct UserTask {
    /// The number by which the program knows the task.
    pub id: usize,
    /// Whether the task waits to be woken.
    pub sleeping: bool,
}

impl UserTask {
    /// A task that is awake.
    pub fn new(id: usize) -> (r: UserTask)
        ensures
            r == (UserTask { id, sleeping: false }),
    {
        UserTask { id, sleeping: false }
    }

    /// Wakes the task.
    pub fn mark_ready(&mut self)
        ensures
            *final(self) == (UserTask { sleeping: false, ..*old(self) }),
    {
        self.sleeping = false;
    }

    /// Puts the task to sleep.
    pub fn mark_sleeping(&mut self)
        ensures
            *final(self) == (UserTask { sleeping: true, ..*old(self) }),
    {
        self.sleeping = true;
    }

    /// Whether the task sleeps.
    pub fn is_sleeping(&self) -> (r: bool)
        ensures
            r == self.sleeping,
    {
        self.sleeping
    }
}

/// The position of the first task of the queue that is awake, or the length
/// of the queue if every task sleeps.
pub open spec fn first_awake(tasks: Seq<UserTask>) -> int
    decreases tasks.len(),
{
    if tasks.len() == 0 {
        0
    } else if !tasks[0].sleeping {
        0
    } else {
        1 + first_awake(tasks.drop_first())
    }
}

/// The first awake task is inside the queue exactly if some task is awake,
/// and every task in front of it sleeps.
pub proof fn lemma_first_awake(tasks: Seq<UserTask>)
    ensures
        0 <= first_awake(tasks) <= tasks.len(),
        first_awake(tasks) < tasks.len() ==> !tasks[first_awake(tasks)].sleeping,
        forall|i: int| 0 <= i < first_awake(tasks) ==> (#[trigger] tasks[i]).sleeping,
        first_awake(tasks) == tasks.len() <==> forall|i: int| 0 <= i < tasks.len() ==> (#[trigger] tasks[i]).sleeping,
    decreases tasks.len(),
{
    if tasks.len() > 0 && tasks[0].sleeping {
        let rest = tasks.drop_first();
        lemma_first_awake(rest);
        assert forall|i: int| 0 <= i < first_awake(tasks) implies (#[trigger] tasks[i]).sleeping by {
            if i > 0 {
                assert(rest[i - 1] == tasks[i]);
            }
        }
        if first_awake(tasks) < tasks.len() {
            assert(rest[first_awake(rest)] == tasks[first_awake(tasks)]);
        }
        if first_awake(tasks) == tasks.len() {
            assert forall|i: int| 0 <= i < tasks.len() implies (#[trigger] tasks[i]).sleeping by {
                if i > 0 {
                    assert(rest[i - 1] == tasks[i]);
                }
            }
        } else {
            let k = first_awake(rest);
            assert(!rest[k].sleeping);
            assert(tasks[k + 1] == rest[k]);
        }
    }
}

/// A queue of tasks that are served in turn.
#[derive(Debug)]
pub struct RoundRobinScheduler {
    pub tasks: VecDeque<UserTask>,
}

impl RoundRobinScheduler {
    /// A queue without tasks.
    pub fn new() -> (r: RoundRobinScheduler)
        ensures
            r.tasks@ == Seq::<UserTask>::empty(),
    {
        RoundRobinScheduler { tasks: VecDeque::new() }
    }

    /// Puts a task at the end of the queue.
    pub fn push_task(&mut self, task: UserTask)
        ensures
            final(self).tasks@ == old(self).tasks@.push(task),
    {
        self.tasks.push_back(task)
    }

    /// Takes the first task that is awake out of the queue; the sleeping
    /// tasks in front of it go to the end of the queue, in their order.
    /// Returns nothing when the queue is empty. A queue of tasks that all
    /// sleep would be turned over for ever; to ask then is a fault of the
    /// caller.
    pub fn pop_task(&mut self) -> (r: Option<UserTask>)
        requires
            old(self).tasks@.len() == 0 || first_awake(old(self).tasks@) < old(self).tasks@.len(),
        ensures
            old(self).tasks@.len() == 0 ==> r is None && final(self).tasks@ == old(self).tasks@,
            old(self).tasks@.len() > 0 ==> {
                let k = first_awake(old(self).tasks@);
                &&& r == Some(old(self).tasks@[k])
                &&& final(self).tasks@ == old(self).tasks@.subrange(k + 1, old(self).tasks@.len() as int)
                    + old(self).tasks@.subrange(0, k)
            },
    {
        let ghost all = self.tasks@;
        let ghost k = first_awake(all);
        let ghost turned: int = 0;
        proof {
            lemma_first_awake(all);
            assert(all.subrange(0, all.len() as int) =~= all);
            assert(all + all.subrange(0, 0) =~= all);
        }
        loop
            invariant
                all == old(self).tasks@,
                k == first_awake(all),
                all.len() == 0 || k < all.len(),
                0 <= turned <= k,
                all.len() > 0 ==> !all[k].sleeping,
                forall|i: int| 0 <= i < k ==> (#[trigger] all[i]).sleeping,
                self.tasks@ == all.subrange(turned, all.len() as int) + all.subrange(0, turned),
            decreases k - turned,
        {
            match self.tasks.pop_front() {
                Some(task) => {
                    assert(task == all[turned]);
                    if task.is_sleeping() {
                        self.tasks.push_back(task);
                        proof {
                            assert(self.tasks@ =~= all.subrange(turned + 1, all.len() as int) + all.subrange(
                                0,
                                turned + 1,
                            ));
                            turned = turned + 1;
                        }
                    } else {
                        proof {
                            assert(self.tasks@ =~= all.subrange(k + 1, all.len() as int) + all.subrange(0, k));
                        }
                        return Some(task);
                    }
                },
                None => {
                    assert(all.len() == 0);
                    return None;
                },
            }
        }
    }

    /// Takes the next task to poll out of the queue and puts it to sleep:
    /// whatever wakes it while it is polled makes it ready again.
    pub fn next_to_poll(&mut self) -> (r: Option<UserTask>)
        requires
            old(self).tasks@.len() == 0 || first_awake(old(self).tasks@) < old(self).tasks@.len(),
        ensures
            old(self).tasks@.len() == 0 ==> r is None && final(self).tasks@ == old(self).tasks@,
            old(self).tasks@.len() > 0 ==> {
                let k = first_awake(old(self).tasks@);
                &&& r == Some(UserTask { sleeping: true, ..old(self).tasks@[k] })
                &&& final(self).tasks@ == old(self).tasks@.subrange(k + 1, old(self).tasks@.len() as int)
                    + old(self).tasks@.subrange(0, k)
            },
    {
        match self.pop_task() {
            Some(task) => {
                let mut task = task;
                task.mark_sleeping();
                Some(task)
            },
            None => None,
        }
    }

    /// Takes a task back after it was polled: one that is not done yet is
    /// made ready and goes to the end of the queue, one that is done is
    /// dropped.
    pub fn after_poll(&mut self, task: UserTask, pending: bool)
        ensures
            final(self).tasks@ == if pending {
                old(self).tasks@.push(UserTask { sleeping: false, ..task })
            } else {
                old(self).tasks@
            },
    {
        if pending {
            let mut task = task;
            task.mark_ready();
            self.push_task(task);
        }
    }
}

/// The Fibonacci numbers: 0, 1, 1, 2, 3, 5, ...
pub open spec fn fibonacci(n: nat) -> nat
    decreases n,
{
    if n == 0 {
        0
    } else if n == 1 {
        1
    } else {
        fibonacci((n - 1) as nat) + fibonacci((n - 2) as nat)
    }
}

/// The Fibonacci numbers do not descend.
pub proof fn lemma_fibonacci_monotonic(i: nat, j: nat)
    requires
        i <= j,
    ensures
        fibonacci(i) <= fibonacci(j),
    decreases j,
{
    if i < j {
        lemma_fibonacci_monotonic(i, (j - 1) as nat);
        if j >= 2 {
        }
    }
}

/// A task that computes a Fibonacci number, one step each time it is polled.
#[derive(Copy, Clone, PartialEq, Eq, Debug, Structural)]
pub struct FibonacciFuture {
    pub a: u64,
    pub b: u64,
    pub i: u64,
    pub cnt: u64,
}

impl FibonacciFuture {
    /// The task holds the Fibonacci number of its step count, and the one
    /// before it.
    pub open spec fn wf(self) -> bool {
        &&& self.i <= self.cnt
        &&& self.a == fibonacci(self.i as nat)
        &&& self.i > 0 ==> self.b == fibonacci((self.i - 1) as nat)
        &&& self.i == 0 ==> self.b == 1
    }

    /// A task that computes the Fibonacci number of `cnt`.
    pub fn new(cnt: u64) -> (r: FibonacciFuture)
        ensures
            r == (FibonacciFuture { a: 0, b: 1, i: 0, cnt }),
            r.wf(),
    {
        FibonacciFuture { a: 0, b: 1, i: 0, cnt }
    }

    /// One poll: the result if the task has made all its steps, else one more
    /// step and nothing yet.
    pub fn poll(&mut self) -> (r: Option<u64>)
        requires
            old(self).wf(),
            fibonacci(old(self).cnt as nat) <= u64::MAX,
        ensures
            final(self).wf(),
            final(self).cnt == old(self).cnt,
            old(self).i == old(self).cnt ==> r == Some(old(self).a) && *final(self) == *old(self),
            old(self).i < old(self).cnt ==> r is None && final(self).i == old(self).i + 1,
    {
        if self.i == self.cnt {
            Some(self.a)
        } else {
            proof {
                lemma_fibonacci_monotonic((self.i + 1) as nat, self.cnt as nat);
                if self.i == 0 {
                    assert(fibonacci(1) == 1);
                } else {
                    assert(fibonacci((self.i + 1) as nat) == fibonacci(self.i as nat) + fibonacci(
                        (self.i - 1) as nat,
                    ));
                }
            }
            let t = self.a;
            self.a = self.a + self.b;
            self.b = t;
            self.i = self.i + 1;
            None
        }
    }
}

} // verus!
