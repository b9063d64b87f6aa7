//! The work that a frame still has to do.
//!
//! Each frame keeps a stack of tasks. A step of the interpreter takes the
//! topmost task and performs it; performing a statement mostly means to
//! put the tasks that it is made of on the stack.
use vstd::prelude::*;
use crate::ast::{nodes_view, BinaryOperation, Node, NodeView};
use crate::value::{Kind, Value, ValueView};

verus! {

/// One piece of work.
#[derive(Debug, PartialEq)]
pub enum Task {
    /// Execute a statement, or evaluate a node into the current value.
    Run(Node),
    /// Combine the value that was current before the operand was
    /// evaluated with the current value.
    Operate(BinaryOperation, Value),
    /// Bind a variable to the current value.
    Bind(String),
    /// Bind a variable to the current value, which must be of a kind.
    Define(Kind, String),
    /// Run the first statements where the current value is true, the
    /// second where it is false.
    Branch(Vec<Node>, Vec<Node>),
    /// Run the body and evaluate the condition again where the current
    /// value holds.
    Loop(Node, Vec<Node>),
    /// Start a counted loop whose count is the current value.
    Count(String, Vec<Node>),
    /// Go on with a counted loop: variable, body, the index of the next
    /// round, and the number of rounds.
    Iterate(String, Vec<Node>, u128, u128),
    /// Print the current value.
    Emit,
    /// Return the current value to the caller.
    Leave,
    /// Keep the current value as the next argument of a call.
    Gather,
    /// Call a function with the given number of gathered arguments.
    Invoke(String, usize),
}

pub enum TaskView {
    Run(NodeView),
    Operate(BinaryOperation, ValueView),
    Bind(Seq<char>),
    Define(Kind, Seq<char>),
    Branch(Seq<NodeView>, Seq<NodeView>),
    Loop(NodeView, Seq<NodeView>),
    Count(Seq<char>, Seq<NodeView>),
    Iterate(Seq<char>, Seq<NodeView>, u128, u128),
    Emit,
    Leave,
    Gather,
    Invoke(Seq<char>, usize),
}

impl View for Task {
    type V = TaskView;

    open spec fn view(&self) -> TaskView {
        match self {
            Task::Run(node) => TaskView::Run(node@),
            Task::Operate(operation, left) => TaskView::Operate(*operation, left@),
            Task::Bind(name) => TaskView::Bind(name@),
            Task::Define(kind, name) => TaskView::Define(*kind, name@),
            Task::Branch(accepted, rejected) => TaskView::Branch(
                nodes_view(accepted@),
                nodes_view(rejected@),
            ),
            Task::Loop(condition, body) => TaskView::Loop(condition@, nodes_view(body@)),
            Task::Count(name, body) => TaskView::Count(name@, nodes_view(body@)),
            Task::Iterate(name, body, next, rounds) => TaskView::Iterate(
                name@,
                nodes_view(body@),
                *next,
                *rounds,
            ),
            Task::Emit => TaskView::Emit,
            Task::Leave => TaskView::Leave,
            Task::Gather => TaskView::Gather,
            Task::Invoke(name, given) => TaskView::Invoke(name@, *given),
        }
    }
}

/// The values of a stack of tasks, one for one; the top is the last.
pub open spec fn tasks_view(tasks: Seq<Task>) -> Seq<TaskView> {
    Seq::new(tasks.len(), |i: int| tasks[i]@)
}

/// Puts a task on top of the stack.
pub fn push_task(tasks: &mut Vec<Task>, task: Task)
    ensures
        tasks_view(final(tasks)@) == tasks_view(old(tasks)@).push(task@),
{
    tasks.push(task);
    assert(tasks_view(tasks@) =~= tasks_view(old(tasks)@).push(task@));
}

/// Takes the topmost task off the stack.
pub fn pop_task(tasks: &mut Vec<Task>) -> (r: Option<Task>)
    ensures
        match r {
            Some(task) => {
                &&& tasks_view(old(tasks)@).len() > 0
                &&& task@ == tasks_view(old(tasks)@).last()
                &&& tasks_view(final(tasks)@) == tasks_view(old(tasks)@).drop_last()
            },
            None => tasks_view(old(tasks)@).len() == 0 && final(tasks)@ == old(tasks)@,
        },
{
    let r = tasks.pop();
    assert(tasks_view(tasks@) =~= tasks_view(old(tasks)@).drop_last() || r is None);
    r
}

/// The tasks that run `nodes` in order: the task of the first node comes
/// last, on top of the stack.
pub open spec fn spec_runs(nodes: Seq<NodeView>) -> Seq<TaskView> {
    Seq::new(nodes.len(), |i: int| TaskView::Run(nodes[nodes.len() - 1 - i]))
}

/// Puts the tasks that run copies of `nodes` in order on the stack.
pub fn schedule(tasks: &mut Vec<Task>, nodes: &Vec<Node>)
    ensures
        tasks_view(final(tasks)@) == tasks_view(old(tasks)@) + spec_runs(nodes_view(nodes@)),
{
    let mut left: usize = nodes.len();
    assert(tasks_view(tasks@) =~= tasks_view(old(tasks)@) + spec_runs(nodes_view(nodes@)).take(0));
    while left > 0
        invariant
            left <= nodes.len(),
            tasks_view(tasks@) == tasks_view(old(tasks)@) + spec_runs(nodes_view(nodes@)).take(
                nodes.len() - left,
            ),
        decreases left,
    {
        left -= 1;
        let ghost before = tasks_view(tasks@);
        push_task(tasks, Task::Run(nodes[left].duplicate()));
        proof {
            let runs = spec_runs(nodes_view(nodes@));
            let k = nodes.len() - left - 1;
            assert(runs.take(k + 1) =~= runs.take(k).push(runs[k]));
            assert(before.push(runs[k]) =~= tasks_view(old(tasks)@) + runs.take(k + 1));
        }
    }
    proof {
        let runs = spec_runs(nodes_view(nodes@));
        assert(runs.take(nodes.len() as int) =~= runs);
    }
}

/// Puts the tasks that run `nodes` in order on the stack.
pub fn schedule_owned(tasks: &mut Vec<Task>, nodes: Vec<Node>)
    ensures
        tasks_view(final(tasks)@) == tasks_view(old(tasks)@) + spec_runs(nodes_view(nodes@)),
{
    let ghost all = nodes@;
    let ghost runs = spec_runs(nodes_view(all));
    let mut rest = nodes;
    assert(tasks_view(tasks@) =~= tasks_view(old(tasks)@) + runs.take(0));
    loop
        invariant
            all == nodes@,
            rest.len() <= all.len(),
            rest@ == all.take(rest.len() as int),
            runs == spec_runs(nodes_view(all)),
            tasks_view(tasks@) == tasks_view(old(tasks)@) + runs.take(all.len() - rest.len()),
        decreases rest.len(),
    {
        let ghost before = tasks_view(tasks@);
        let ghost k = all.len() - rest.len();
        match rest.pop() {
            Some(node) => {
                push_task(tasks, Task::Run(node));
                proof {
                    assert(rest@ =~= all.take(rest.len() as int));
                    assert(node == all[all.len() - 1 - k]);
                    assert(runs.take(k + 1) =~= runs.take(k).push(runs[k]));
                    assert(before.push(runs[k]) =~= tasks_view(old(tasks)@) + runs.take(k + 1));
                }
            },
            None => {
                proof {
                    assert(runs.take(all.len() as int) =~= runs);
                }
                return ;
            },
        }
    }
}

/// The tasks that evaluate the arguments of a call in order and gather
/// their values: for each argument, from the last to the first, the task
/// that gathers and, above it, the task that evaluates.
pub open spec fn spec_gathers(arguments: Seq<NodeView>) -> Seq<TaskView> {
    Seq::new(
        2 * arguments.len(),
        |i: int|
            if i % 2 == 0 {
                TaskView::Gather
            } else {
                TaskView::Run(arguments[arguments.len() - 1 - i / 2])
            },
    )
}

/// Puts the tasks that evaluate and gather copies of `arguments` on the
/// stack.
pub fn schedule_arguments(tasks: &mut Vec<Task>, arguments: &Vec<Node>)
    ensures
        tasks_view(final(tasks)@) == tasks_view(old(tasks)@) + spec_gathers(
            nodes_view(arguments@),
        ),
{
    let mut left: usize = arguments.len();
    assert(tasks_view(tasks@) =~= tasks_view(old(tasks)@) + spec_gathers(
        nodes_view(arguments@),
    ).take(0));
    while left > 0
        invariant
            left <= arguments.len(),
            tasks_view(tasks@) == tasks_view(old(tasks)@) + spec_gathers(
                nodes_view(arguments@),
            ).take(2 * (arguments.len() - left)),
        decreases left,
    {
        left -= 1;
        let ghost before = tasks_view(tasks@);
        push_task(tasks, Task::Gather);
        push_task(tasks, Task::Run(arguments[left].duplicate()));
        proof {
            let all = spec_gathers(nodes_view(arguments@));
            let k = 2 * (arguments.len() - left - 1);
            assert(all.take(k + 2) =~= all.take(k).push(all[k]).push(all[k + 1]));
            assert(before.push(all[k]).push(all[k + 1]) =~= tasks_view(old(tasks)@) + all.take(
                k + 2,
            ));
        }
    }
    proof {
        let all = spec_gathers(nodes_view(arguments@));
        assert(all.take(2 * arguments.len()) =~= all);
    }
}

} // verus!
