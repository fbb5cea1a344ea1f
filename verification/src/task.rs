//! The unit of work: a name, an executable and its arguments.

use crate::error::ErrorView;
use crate::error::ScriptError;
use crate::text::contains_sigil;
use crate::text::has_sigil;
use vstd::prelude::*;
use vstd::string::StringExecFns;

verus! {

/// One command. It is complete when no `$` is left in it, incomplete as long
/// as a placeholder still waits to be replaced.
#[derive(Debug, Clone, PartialEq, Eq)]
pub struct Task {
    pub name: String,
    pub cmd: String,
    pub args: Vec<String>,
}

/// A `Task` as a mathematical value.
pub struct TaskView {
    pub name: Seq<char>,
    pub cmd: Seq<char>,
    pub args: Seq<Seq<char>>,
}

impl View for Task {
    type V = TaskView;

    open spec fn view(&self) -> TaskView {
        TaskView { name: self.name@, cmd: self.cmd@, args: self.args.deep_view() }
    }
}

impl DeepView for Task {
    type V = TaskView;

    open spec fn deep_view(&self) -> TaskView {
        self@
    }
}

impl TaskView {
    /// Neither the executable nor any argument holds the sigil.
    pub open spec fn is_completed(self) -> bool {
        &&& !has_sigil(self.cmd)
        &&& forall|i: int| 0 <= i < self.args.len() ==> !has_sigil(#[trigger] self.args[i])
    }

    /// The tokens of the task's command: the executable, then the arguments.
    pub open spec fn tokens(self) -> Seq<Seq<char>> {
        seq![self.cmd] + self.args
    }

    /// The name of the file that takes what the task prints.
    pub open spec fn output_file(self) -> Seq<char> {
        self.name + ".out"@
    }

    /// The task that runs the command `tokens` under `name`: the first token
    /// is the executable, the others are its arguments. A command without a
    /// token has no executable and makes no task.
    pub open spec fn from_tokens(name: Seq<char>, tokens: Seq<Seq<char>>) -> Result<
        TaskView,
        ErrorView,
    > {
        if tokens.len() == 0 {
            Err(ErrorView::EmptyCommand)
        } else {
            Ok(TaskView { name, cmd: tokens[0], args: tokens.subrange(1, tokens.len() as int) })
        }
    }
}

/// A task, or the reason why there is none, as a mathematical value.
pub open spec fn task_outcome(r: Result<Task, ScriptError>) -> Result<TaskView, ErrorView> {
    match r {
        Ok(task) => Ok(task@),
        Err(e) => Err(e@),
    }
}

/// A list of tasks, or the reason why there is none, as a mathematical value.
pub open spec fn tasks_outcome(r: Result<Vec<Task>, ScriptError>) -> Result<
    Seq<TaskView>,
    ErrorView,
> {
    match r {
        Ok(tasks) => Ok(tasks.deep_view()),
        Err(e) => Err(e@),
    }
}

impl Task {
    /// Whether the task is complete.
    pub fn is_completed(&self) -> (complete: bool)
        ensures
            complete == self@.is_completed(),
    {
        if contains_sigil(self.cmd.as_str()) {
            return false;
        }
        let mut i: usize = 0;
        while i < self.args.len()
            invariant
                i <= self.args@.len(),
                forall|j: int| 0 <= j < i ==> !has_sigil(#[trigger] self@.args[j]),
            decreases self.args@.len() - i,
        {
            if contains_sigil(self.args[i].as_str()) {
                assert(has_sigil(self@.args[i as int]));
                return false;
            }
            i = i + 1;
        }
        true
    }

    /// The name of the file that takes what the task prints: the task's
    /// name, then `.out`.
    pub fn output_file(&self) -> (file: String)
        ensures
            file@ == self@.output_file(),
    {
        self.name.clone().concat(".out")
    }

    /// Makes the task that runs `tokens` under `name`.
    pub fn from_tokens(name: String, tokens: &Vec<String>) -> (r: Result<Task, ScriptError>)
        ensures
            task_outcome(r) == TaskView::from_tokens(name@, tokens.deep_view()),
    {
        if tokens.len() == 0 {
            return Err(ScriptError::EmptyCommand);
        }
        let mut args: Vec<String> = Vec::new();
        let mut i: usize = 1;
        while i < tokens.len()
            invariant
                1 <= i <= tokens@.len(),
                args.deep_view() == tokens.deep_view().subrange(1, i as int),
            decreases tokens@.len() - i,
        {
            let ghost before = args.deep_view();
            args.push(tokens[i].clone());
            assert(args.deep_view() =~= before.push(tokens@[i as int]@));
            assert(tokens.deep_view().subrange(1, i + 1) =~= before.push(tokens@[i as int]@));
            i = i + 1;
        }
        Ok(Task { name, cmd: tokens[0].clone(), args })
    }
}

} // verus!
