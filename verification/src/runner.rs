//! Running the tasks: the states that a task goes through, and the queue
//! from which the workers take the tasks, each task exactly once. The
//! workers themselves, the processes and the files are the caller's.

use crate::error::ScriptError;
use crate::script::ConfigLoaderTrait;
use crate::script::MainLoaderTrait;
use crate::script::Script;
use crate::task::Task;
use crate::task::TaskView;
use vstd::prelude::*;

verus! {

/// The time that a task may run, in seconds.
pub const TIMEOUT_SECS: u64 = 3600;

/// Where a task stands.
#[derive(Debug, Clone, Copy, PartialEq, Eq)]
pub enum TaskState {
    /// The task waits in the queue.
    Queued,
    /// A worker has taken the task.
    Running,
    /// The process has ended by itself; holds its exit code, if it has one.
    Completed(Option<i32>),
    /// The time was over and the process was ended.
    TimedOut,
    /// The process could not be started.
    FailedToLaunch,
}

/// What happens to a task.
#[derive(Debug, Clone, Copy, PartialEq, Eq)]
pub enum TaskEvent {
    /// A worker takes the task from the queue.
    Claimed,
    /// The process could not be started.
    LaunchFailed,
    /// The process has ended by itself; holds its exit code, if it has one.
    Exited(Option<i32>),
    /// The time is over and the process still runs.
    TimeoutElapsed,
}

/// What the worker has to do next.
#[derive(Debug, Clone, Copy, PartialEq, Eq)]
pub enum Action {
    /// Open the task's output file afresh and start the process, with its
    /// output and its errors going to that file; then wait for its end, no
    /// longer than `TIMEOUT_SECS`.
    Launch,
    /// End the process and wait until it is gone.
    Kill,
    /// Nothing.
    Nothing,
}

impl TaskState {
    /// Whether the task has reached its outcome.
    pub open spec fn is_final(self) -> bool {
        self is Completed || self is TimedOut || self is FailedToLaunch
    }

    /// How far the task has come: 0 in the queue, 1 with a worker, 2 at its
    /// outcome.
    pub open spec fn rank(self) -> int {
        match self {
            TaskState::Queued => 0,
            TaskState::Running => 1,
            _ => 2,
        }
    }
}

/// The state that follows `state` on `event`, and what the worker has to do
/// then. An event that cannot happen in a state changes nothing.
pub open spec fn transition(state: TaskState, event: TaskEvent) -> (TaskState, Action) {
    match (state, event) {
        (TaskState::Queued, TaskEvent::Claimed) => (TaskState::Running, Action::Launch),
        (TaskState::Running, TaskEvent::LaunchFailed) => (TaskState::FailedToLaunch, Action::Nothing),
        (TaskState::Running, TaskEvent::Exited(code)) => (
            TaskState::Completed(code),
            Action::Nothing,
        ),
        (TaskState::Running, TaskEvent::TimeoutElapsed) => (TaskState::TimedOut, Action::Kill),
        _ => (state, Action::Nothing),
    }
}

/// The state that follows `state` on `event`, and what the worker has to do
/// then.
pub fn step(state: TaskState, event: TaskEvent) -> (next: (TaskState, Action))
    ensures
        next == transition(state, event),
{
    match state {
        TaskState::Queued => match event {
            TaskEvent::Claimed => (TaskState::Running, Action::Launch),
            _ => (state, Action::Nothing),
        },
        TaskState::Running => match event {
            TaskEvent::Claimed => (state, Action::Nothing),
            TaskEvent::LaunchFailed => (TaskState::FailedToLaunch, Action::Nothing),
            TaskEvent::Exited(code) => (TaskState::Completed(code), Action::Nothing),
            TaskEvent::TimeoutElapsed => (TaskState::TimedOut, Action::Kill),
        },
        _ => (state, Action::Nothing),
    }
}

/// The number of workers for a request of `requested`: as many, but one at
/// least.
pub fn worker_count(requested: usize) -> (workers: usize)
    ensures
        workers >= 1,
        workers == if requested == 0 {
            1
        } else {
            requested as int
        },
{
    if requested == 0 {
        1
    } else {
        requested
    }
}

/// A task never goes back: no event leads to the queue again, an outcome
/// stays what it is, and a task is ended by force only when its time is
/// over.
pub proof fn lemma_tasks_only_advance(state: TaskState, event: TaskEvent)
    ensures
        transition(state, event).0.rank() >= state.rank(),
        transition(state, event).0 is Queued ==> state is Queued,
        state.is_final() ==> transition(state, event).0 == state,
        transition(state, event).1 is Kill <==> state is Running && event is TimeoutElapsed,
        transition(state, event).0 is TimedOut && !(state is TimedOut) ==> transition(
            state,
            event,
        ).1 is Kill,
{
}

/// A `Runner` as a mathematical value: the tasks, the state of each, and
/// the number of tasks that still wait in the queue.
pub struct RunnerView {
    pub tasks: Seq<TaskView>,
    pub states: Seq<TaskState>,
    pub queued: nat,
}

impl RunnerView {
    /// Each task has a state, and the tasks in the queue are the first
    /// `queued` ones.
    pub open spec fn wf(self) -> bool {
        &&& self.states.len() == self.tasks.len()
        &&& self.queued <= self.tasks.len()
        &&& forall|i: int|
            0 <= i < self.states.len() ==> ((#[trigger] self.states[i]) is Queued <==> i
                < self.queued)
    }

    /// The runner at its start: every task waits in the queue.
    pub open spec fn start(tasks: Seq<TaskView>) -> RunnerView {
        RunnerView {
            tasks,
            states: Seq::new(tasks.len(), |i: int| TaskState::Queued),
            queued: tasks.len(),
        }
    }

    /// The task that the next worker takes: the last one in the queue.
    pub open spec fn next(self) -> Option<int> {
        if self.queued > 0 {
            Some(self.queued - 1)
        } else {
            None
        }
    }

    /// The runner after a worker has taken a task.
    pub open spec fn claimed(self) -> RunnerView {
        match self.next() {
            None => self,
            Some(i) => RunnerView {
                tasks: self.tasks,
                states: self.states.update(i, transition(self.states[i], TaskEvent::Claimed).0),
                queued: i as nat,
            },
        }
    }

    /// The runner after `event` has happened to the task at `index`. A task
    /// leaves the queue only when a worker takes it.
    pub open spec fn recorded(self, index: int, event: TaskEvent) -> RunnerView {
        if 0 <= index < self.states.len() && !(self.states[index] is Queued) {
            RunnerView {
                tasks: self.tasks,
                states: self.states.update(index, transition(self.states[index], event).0),
                queued: self.queued,
            }
        } else {
            self
        }
    }

    /// What the worker has to do after `event` has happened to the task at
    /// `index`.
    pub open spec fn reaction(self, index: int, event: TaskEvent) -> Action {
        if 0 <= index < self.states.len() && !(self.states[index] is Queued) {
            transition(self.states[index], event).1
        } else {
            Action::Nothing
        }
    }

    /// Every task has reached its outcome.
    pub open spec fn finished(self) -> bool {
        forall|i: int| 0 <= i < self.states.len() ==> (#[trigger] self.states[i]).is_final()
    }

    /// The runner after workers have taken `k` times from the queue.
    pub open spec fn after_claims(self, k: nat) -> RunnerView
        decreases k,
    {
        if k == 0 {
            self
        } else {
            self.after_claims((k - 1) as nat).claimed()
        }
    }

    /// What the worker gets that is the `k`-th to take from the queue,
    /// counted from 0.
    pub open spec fn nth_claim(self, k: nat) -> Option<int> {
        self.after_claims(k).next()
    }
}

/// Taking from the queue keeps the runner well formed, and the queue gets
/// shorter by one as long as a task waits.
pub proof fn lemma_after_claims(runner: RunnerView, k: nat)
    requires
        runner.wf(),
    ensures
        runner.after_claims(k).wf(),
        runner.after_claims(k).tasks == runner.tasks,
        runner.after_claims(k).queued == if k <= runner.queued {
            runner.queued - k
        } else {
            0
        },
    decreases k,
{
    if k > 0 {
        lemma_after_claims(runner, (k - 1) as nat);
    }
}

/// Whatever the number of workers and the order in which they come to the
/// queue, every task is handed out exactly once: to one taker, and to no
/// second one. Who comes when the queue is empty gets nothing.
pub proof fn lemma_each_task_claimed_once(tasks: Seq<TaskView>)
    ensures
        forall|i: int|
            0 <= i < tasks.len() ==> #[trigger] RunnerView::start(tasks).nth_claim(
                (tasks.len() - 1 - i) as nat,
            ) == Some(i),
        forall|k: nat, l: nat|
            #![trigger RunnerView::start(tasks).nth_claim(k), RunnerView::start(tasks).nth_claim(l)]
            RunnerView::start(tasks).nth_claim(k) is Some && RunnerView::start(tasks).nth_claim(k)
                == RunnerView::start(tasks).nth_claim(l) ==> k == l,
        forall|k: nat|
            #![trigger RunnerView::start(tasks).nth_claim(k)]
            RunnerView::start(tasks).nth_claim(k) is Some <==> k < tasks.len(),
        forall|k: nat|
            #![trigger RunnerView::start(tasks).nth_claim(k)]
            RunnerView::start(tasks).nth_claim(k) matches Some(i) ==> 0 <= i < tasks.len(),
{
    let runner = RunnerView::start(tasks);
    assert(runner.wf());
    assert forall|k: nat|
        #[trigger] runner.nth_claim(k) == if k < tasks.len() {
            Some(tasks.len() - 1 - k)
        } else {
            None::<int>
        } by {
        lemma_after_claims(runner, k);
    }
    assert forall|i: int| 0 <= i < tasks.len() implies #[trigger] runner.nth_claim(
        (tasks.len() - 1 - i) as nat,
    ) == Some(i) by {
        lemma_after_claims(runner, (tasks.len() - 1 - i) as nat);
    }
}

/// The tasks of a run with the state of each, and the queue from which the
/// workers take them.
pub struct Runner {
    tasks: Vec<Task>,
    states: Vec<TaskState>,
    queued: usize,
}

impl View for Runner {
    type V = RunnerView;

    closed spec fn view(&self) -> RunnerView {
        RunnerView {
            tasks: self.tasks.deep_view(),
            states: self.states@,
            queued: self.queued as nat,
        }
    }
}

impl Runner {
    #[verifier::type_invariant]
    spec fn well_formed(self) -> bool {
        self@.wf()
    }

    /// A runner for `tasks`: all of them wait in the queue, in their order.
    pub fn new(tasks: Vec<Task>) -> (runner: Runner)
        ensures
            runner@ == RunnerView::start(tasks.deep_view()),
            runner@.wf(),
    {
        let mut states: Vec<TaskState> = Vec::new();
        let mut i: usize = 0;
        while i < tasks.len()
            invariant
                i <= tasks@.len(),
                states@ == Seq::new(i as nat, |j: int| TaskState::Queued),
            decreases tasks@.len() - i,
        {
            states.push(TaskState::Queued);
            assert(states@ =~= Seq::new((i + 1) as nat, |j: int| TaskState::Queued));
            i = i + 1;
        }
        let queued: usize = tasks.len();
        Runner { tasks, states, queued }
    }

    /// Expands `script` and makes a runner for its tasks.
    pub fn from_script<L: ConfigLoaderTrait, M: MainLoaderTrait>(script: &mut Script<L, M>) -> (r:
        Result<Runner, ScriptError>)
        ensures
            final(script)@ == old(script)@,
            match old(script)@.expansion() {
                Ok(tasks) => r matches Ok(runner) && runner@ == RunnerView::start(tasks)
                    && runner@.wf(),
                Err(e) => r matches Err(found) && found@ == e,
            },
    {
        match script.gen_cmd() {
            Ok(tasks) => Ok(Runner::new(tasks)),
            Err(e) => Err(e),
        }
    }

    /// The number of tasks.
    pub fn len(&self) -> (n: usize)
        ensures
            n == self@.tasks.len(),
    {
        self.tasks.len()
    }

    /// The number of tasks that wait in the queue.
    pub fn queued(&self) -> (n: usize)
        ensures
            n == self@.queued,
    {
        self.queued
    }

    /// Takes the next task from the queue for a worker, who has to launch
    /// it: the last task that waits. Gives its position, or `None` when the
    /// queue is empty.
    pub fn claim(&mut self) -> (taken: Option<usize>)
        ensures
            final(self)@ == old(self)@.claimed(),
            final(self)@.wf(),
            match taken {
                Some(i) => old(self)@.next() == Some(i as int),
                None => old(self)@.next() is None,
            },
    {
        proof {
            use_type_invariant(&*self);
        }
        if self.queued == 0 {
            return None;
        }
        let i: usize = self.queued - 1;
        let (next, _) = step(self.states[i], TaskEvent::Claimed);
        self.put(i, next, i);
        Some(i)
    }

    /// Puts `next` in the place of the state at `index`, and makes `queued`
    /// the length of the queue, both at once.
    fn put(&mut self, index: usize, next: TaskState, queued: usize)
        requires
            index < old(self)@.states.len(),
            (RunnerView {
                tasks: old(self)@.tasks,
                states: old(self)@.states.update(index as int, next),
                queued: queued as nat,
            }).wf(),
        ensures
            final(self)@ == (RunnerView {
                tasks: old(self)@.tasks,
                states: old(self)@.states.update(index as int, next),
                queued: queued as nat,
            }),
    {
        let mut taken = Runner { tasks: Vec::new(), states: Vec::new(), queued: 0 };
        core::mem::swap(self, &mut taken);
        let Runner { tasks, mut states, queued: _ } = taken;
        states[index] = next;
        *self = Runner { tasks, states, queued };
    }

    /// The task at `index`.
    pub fn task(&self, index: usize) -> (task: Option<&Task>)
        ensures
            match task {
                Some(t) => index < self@.tasks.len() && t@ == self@.tasks[index as int],
                None => index >= self@.tasks.len(),
            },
    {
        if index < self.tasks.len() {
            Some(&self.tasks[index])
        } else {
            None
        }
    }

    /// The state of the task at `index`.
    pub fn state(&self, index: usize) -> (state: Option<TaskState>)
        ensures
            match state {
                Some(s) => index < self@.states.len() && s == self@.states[index as int],
                None => index >= self@.states.len(),
            },
    {
        if index < self.states.len() {
            Some(self.states[index])
        } else {
            None
        }
    }

    /// Records that `event` has happened to the task at `index`, and says
    /// what the worker has to do then. Of a task that still waits in the
    /// queue, and of a position where no task is, nothing is recorded.
    pub fn record(&mut self, index: usize, event: TaskEvent) -> (action: Action)
        ensures
            final(self)@ == old(self)@.recorded(index as int, event),
            final(self)@.wf(),
            action == old(self)@.reaction(index as int, event),
    {
        proof {
            use_type_invariant(&*self);
        }
        if index >= self.states.len() {
            return Action::Nothing;
        }
        let state = self.states[index];
        match state {
            TaskState::Queued => Action::Nothing,
            _ => {
                let (next, action) = step(state, event);
                self.put(index, next, self.queued);
                action
            },
        }
    }

    /// The exit code of the run: 0 where there was a task to run, whatever
    /// its outcome, and 1 where there was none at all.
    pub fn exit_code(&self) -> (code: i32)
        ensures
            code == if self@.tasks.len() > 0 {
                0i32
            } else {
                1i32
            },
    {
        if self.tasks.len() > 0 {
            0
        } else {
            1
        }
    }

    /// Whether every task has reached its outcome.
    pub fn is_finished(&self) -> (done: bool)
        ensures
            done == self@.finished(),
    {
        let mut i: usize = 0;
        while i < self.states.len()
            invariant
                i <= self.states@.len(),
                forall|j: int| 0 <= j < i ==> (#[trigger] self@.states[j]).is_final(),
            decreases self.states@.len() - i,
        {
            match self.states[i] {
                TaskState::Queued | TaskState::Running => {
                    assert(!self@.states[i as int].is_final());
                    return false;
                },
                _ => {},
            }
            i = i + 1;
        }
        true
    }
}

} // verus!
