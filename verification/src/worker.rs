use vstd::prelude::*;

verus! {

use crate::TaskError;

/// The lifecycle state of one background task: it starts `Running` and makes a
/// single transition to one of the terminal states `Finished` or `Failed`.
pub enum TaskState<T: Send + 'static> {
    Running,
    Finished(T),
    Failed(TaskError),
}

impl<T: Send + 'static> TaskState<T> {
    /// `Finished` and `Failed` are the terminal states: once reached, no poll
    /// moves the task anywhere else.
    pub open spec fn is_terminal(self) -> bool {
        !(self is Running)
    }
}

/// The receiving end of the one-shot completion channel of one task.
#[verifier::external_type_specification]
#[verifier::external_body]
#[verifier::reject_recursive_types(T)]
pub struct ExReceiver<T>(std::sync::mpsc::Receiver<T>);

/// The sending end of the one-shot completion channel of one task; owned by
/// the spawned execution unit, which sends at most once.
#[verifier::external_type_specification]
#[verifier::external_body]
#[verifier::reject_recursive_types(T)]
pub struct ExSender<T>(std::sync::mpsc::Sender<T>);

/// What one non-blocking look at a completion channel can find.
pub enum ChannelPoll<T: Send + 'static> {
    /// The execution unit delivered its result.
    Received(Result<T, TaskError>),
    /// No result has arrived yet.
    Empty,
    /// The sending end is gone and no result will ever arrive.
    Disconnected,
}

/// Relies on std::sync::mpsc::channel: returns a connected sender/receiver pair.
#[verifier::external_body]
pub(crate) fn completion_channel<T: Send + 'static>() -> (r: (
    std::sync::mpsc::Sender<Result<T, TaskError>>,
    std::sync::mpsc::Receiver<Result<T, TaskError>>,
))
{
    std::sync::mpsc::channel()
}

/// Relies on std::sync::mpsc::Receiver::try_recv: returns a waiting message if
/// there is one, says `Empty` if none has arrived yet, and `Disconnected` once
/// the sender is gone and the channel holds no message; it never blocks.
#[verifier::external_body]
fn try_recv_result<T: Send + 'static>(
    receiver: &std::sync::mpsc::Receiver<Result<T, TaskError>>,
) -> (r: ChannelPoll<T>)
{
    match receiver.try_recv() {
        Ok(value) => ChannelPoll::Received(value),
        Err(std::sync::mpsc::TryRecvError::Empty) => ChannelPoll::Empty,
        Err(std::sync::mpsc::TryRecvError::Disconnected) => ChannelPoll::Disconnected,
    }
}

/// One tracked extraction attempt: a label, a lifecycle state, and the
/// receiving end of the one-shot channel its execution unit reports on.
#[verifier::reject_recursive_types(T)]
pub struct Task<T: Send + 'static> {
    pub state: TaskState<T>,
    pub description: String,
    pub task: std::sync::mpsc::Receiver<Result<T, TaskError>>,
}

/// How one poll may move a task's state: a terminal state is kept exactly as it
/// is, and a `Running` task either stays `Running`, adopts a delivered result,
/// or fails when its channel has disconnected.
pub open spec fn step_ok<T: Send + 'static>(
    pre: TaskState<T>,
    msg: ChannelPoll<T>,
    post: TaskState<T>,
) -> bool {
    match pre {
        TaskState::Running => match msg {
            ChannelPoll::Received(Ok(value)) => post == TaskState::Finished(value),
            ChannelPoll::Received(Err(error)) => post == TaskState::<T>::Failed(error),
            ChannelPoll::Empty => post is Running,
            ChannelPoll::Disconnected => post matches TaskState::Failed(e)
                && e.message@ == "Task channel disconnected"@,
        },
        _ => post == pre,
    }
}

/// Advances a task state by one poll step, given what the completion channel
/// had to say. A terminal state is returned unchanged; a delivered success
/// value or failure reason is adopted verbatim.
pub fn step<T: Send + 'static>(pre: TaskState<T>, msg: ChannelPoll<T>) -> (post: TaskState<T>)
    ensures
        step_ok(pre, msg, post),
{
    match pre {
        TaskState::Running => match msg {
            ChannelPoll::Received(Ok(value)) => TaskState::Finished(value),
            ChannelPoll::Received(Err(error)) => TaskState::Failed(error),
            ChannelPoll::Empty => TaskState::Running,
            ChannelPoll::Disconnected => TaskState::Failed(
                TaskError { message: String::from_str("Task channel disconnected") },
            ),
        },
        other => other,
    }
}

/// A task whose execution unit delivered success adopts exactly that value:
/// a `Running` task that receives `Ok(value)` becomes `Finished(value)`.
pub proof fn lemma_success_adopted<T: Send + 'static>(value: T, post: TaskState<T>)
    requires
        step_ok(TaskState::Running, ChannelPoll::Received(Ok(value)), post),
    ensures
        post == TaskState::Finished(value),
{
}

/// A task whose execution unit delivered failure adopts that reason verbatim:
/// a `Running` task that receives `Err(error)` becomes `Failed(error)`, the
/// very same error value.
pub proof fn lemma_failure_adopted<T: Send + 'static>(error: TaskError, post: TaskState<T>)
    requires
        step_ok(TaskState::Running, ChannelPoll::Received(Err(error)), post),
    ensures
        post == TaskState::<T>::Failed(error),
{
}

/// Terminal states never revert: a poll step leaves a `Finished` or `Failed`
/// task's state, and with it its value or failure reason, exactly as it was,
/// whatever its channel might say.
pub proof fn lemma_terminal_stable<T: Send + 'static>(
    pre: TaskState<T>,
    msg: ChannelPoll<T>,
    post: TaskState<T>,
)
    requires
        step_ok(pre, msg, post),
        pre.is_terminal(),
    ensures
        post == pre,
{
}

impl<T: Send + 'static> Task<T> {
    /// Wraps an already-created receiving end into a `Running` task.
    pub fn new_inner(
        description: String,
        rx: std::sync::mpsc::Receiver<Result<T, TaskError>>,
    ) -> (t: Task<T>)
        ensures
            t.state is Running,
            t.description == description,
            t.task == rx,
    {
        Task { state: TaskState::Running, description, task: rx }
    }
}

/// A sink that takes ownership of newly scheduled tasks.
pub trait TaskDisplayer<T: Send + 'static> {
    fn display(&mut self, task: Task<T>);
}

/// The ordered registry of background tasks, kept in insertion order for
/// presentation; polling advances every task without ever blocking.
#[verifier::reject_recursive_types(T)]
pub struct Showcase<T: Send + 'static> {
    pub tasks: Vec<Task<T>>,
}

impl<T: Send + 'static> Showcase<T> {
    /// Creates an empty registry.
    pub fn new() -> (s: Showcase<T>)
        ensures
            s.tasks@.len() == 0,
    {
        Showcase { tasks: Vec::new() }
    }

    /// Advances every task one poll step, in registry order. Tasks already in
    /// a terminal state are left exactly as they are; a `Running` task keeps
    /// its description and channel and moves only as `step_ok` allows.
    pub fn poll(&mut self)
        ensures
            final(self).tasks@.len() == old(self).tasks@.len(),
            forall|i: int| 0 <= i < final(self).tasks@.len() ==> {
                let pre = #[trigger] old(self).tasks@[i];
                let post = final(self).tasks@[i];
                post.description == pre.description && post.task == pre.task
                    && (pre.state.is_terminal() ==> post == pre)
                    && exists|msg: ChannelPoll<T>| step_ok(pre.state, msg, post.state)
            },
    {
        let n = self.tasks.len();
        let mut i: usize = 0;
        while i < n
            invariant
                n == self.tasks@.len(),
                self.tasks@.len() == old(self).tasks@.len(),
                i <= n,
                forall|k: int| i <= k < n ==> self.tasks@[k] == old(self).tasks@[k],
                forall|k: int| 0 <= k < i ==> {
                    let pre = #[trigger] old(self).tasks@[k];
                    let post = self.tasks@[k];
                    post.description == pre.description && post.task == pre.task
                        && (pre.state.is_terminal() ==> post == pre)
                        && exists|msg: ChannelPoll<T>| step_ok(pre.state, msg, post.state)
                },
            decreases n - i,
        {
            let running = match &self.tasks[i].state {
                TaskState::Running => true,
                _ => false,
            };
            if running {
                let msg = try_recv_result(&self.tasks[i].task);
                let ghost gmsg = msg;
                let next = step(TaskState::Running, msg);
                let slot = &mut self.tasks[i];
                slot.state = next;
                proof {
                    assert(step_ok(old(self).tasks@[i as int].state, gmsg, self.tasks@[i as int].state));
                }
            } else {
                proof {
                    let pre = old(self).tasks@[i as int].state;
                    assert(step_ok(pre, ChannelPoll::<T>::Empty, pre));
                }
            }
            i = i + 1;
        }
    }

    /// The number of registered tasks.
    pub fn length(&self) -> (n: usize)
        ensures
            n == self.tasks@.len(),
    {
        self.tasks.len()
    }
}

impl<T: Send + 'static> TaskDisplayer<T> for Showcase<T> {
    /// Appends a task at the end of the registry, preserving insertion order.
    fn display(&mut self, task: Task<T>)
        ensures
            final(self).tasks@ == old(self).tasks@.push(task),
    {
        self.tasks.push(task);
    }
}

} // verus!
