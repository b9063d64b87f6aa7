//! Laws of loops: a counted loop runs its body as often as its count
//! says, and a condition loop as long as its condition holds.
use vstd::prelude::*;
use crate::ast::{BinaryOperation, NodeView};
use crate::frame::{spec_holds, spec_with_tasks, FrameView, FunctionView};
use crate::interpreter::spec_step;
use crate::laws::chains::{law_assignment_folds, lemma_operand_step, spec_assigned, spec_fold,
    spec_is_chain, spec_operand};
use crate::laws::programs::law_print_variable;
use crate::laws::{lemma_run_splits, lemma_unfold, spec_printed, spec_ready, spec_run, spec_running,
    spec_waiting, Host};
use crate::number::{spec_natural, NumberView};
use crate::protocol::{OutputView, Phase, ReplyView, RequestView};
use crate::task::{spec_runs, TaskView};
use crate::value::{spec_count, spec_nonzero, ValueView};

verus! {

/// The body that prints a text.
pub open spec fn spec_print_text(text: Seq<char>) -> Seq<NodeView> {
    seq![NodeView::Print(Box::new(NodeView::String(text)))]
}

/// The same output, `times` times.
pub open spec fn spec_repeated(output: OutputView, times: nat) -> Seq<OutputView> {
    Seq::new(times, |i: int| output)
}

/// The frame after the rounds `next..rounds` of a counted loop whose body
/// prints `text`: where a round was run, the loop variable is bound to
/// the index of the last round, and the text is the current value.
pub open spec fn spec_looped(
    host: Host,
    frame: FrameView,
    rest: Seq<TaskView>,
    name: Seq<char>,
    text: Seq<char>,
    next: u128,
    rounds: u128,
) -> FrameView {
    if next < rounds {
        FrameView {
            variables: frame.variables.insert(
                name,
                ValueView::Number((host.convert)(spec_natural((rounds - 1) as nat))),
            ),
            current: Some(ValueView::Text(text)),
            tasks: rest,
            ..frame
        }
    } else {
        spec_with_tasks(frame, rest)
    }
}

/// One round of a counted loop whose body prints a text takes five
/// steps: the index is converted and bound to the loop variable, and the
/// text is printed.
proof fn lemma_round(
    host: Host,
    functions: Seq<FunctionView>,
    below: Seq<FrameView>,
    frame: FrameView,
    phase: Phase,
    rest: Seq<TaskView>,
    name: Seq<char>,
    text: Seq<char>,
    next: u128,
    rounds: u128,
)
    requires
        phase == Phase::Running || phase == Phase::AwaitPrinted,
        next < rounds,
        frame.tasks == rest.push(TaskView::Iterate(name, spec_print_text(text), next, rounds)),
    ensures
        spec_run(host, spec_waiting(functions, below, frame, phase), ReplyView::Ready, 5) == (
            spec_waiting(
                functions,
                below,
                FrameView {
                    variables: frame.variables.insert(
                        name,
                        ValueView::Number((host.convert)(spec_natural(next as nat))),
                    ),
                    current: Some(ValueView::Text(text)),
                    tasks: rest.push(
                        TaskView::Iterate(
                            name,
                            spec_print_text(text),
                            (next + 1) as u128,
                            rounds,
                        ),
                    ),
                    ..frame
                },
                Phase::AwaitPrinted,
            ),
            ReplyView::Ready,
        ),
        spec_printed(host, spec_waiting(functions, below, frame, phase), ReplyView::Ready, 5)
            == seq![OutputView::Text(text)],
{
    let body = spec_print_text(text);
    let print = NodeView::Print(Box::new(NodeView::String(text)));
    let index = (host.convert)(spec_natural(next as nat));
    let again = rest.push(TaskView::Iterate(name, body, (next + 1) as u128, rounds));
    let bound = FrameView {
        variables: frame.variables.insert(name, ValueView::Number(index)),
        current: Some(ValueView::Number(index)),
        ..frame
    };
    let shown = FrameView { current: Some(ValueView::Text(text)), ..bound };
    let s0 = spec_waiting(functions, below, frame, phase);
    let f1 = spec_with_tasks(frame, again.push(TaskView::Run(print)).push(TaskView::Bind(name)));
    let s1 = spec_waiting(functions, below, f1, Phase::AwaitNumber);
    let f2 = spec_with_tasks(bound, again.push(TaskView::Run(print)));
    let s2 = spec_running(functions, below, f2);
    let f3 = spec_with_tasks(
        bound,
        again.push(TaskView::Emit).push(TaskView::Run(NodeView::String(text))),
    );
    let s3 = spec_running(functions, below, f3);
    let f4 = spec_with_tasks(shown, again.push(TaskView::Emit));
    let s4 = spec_running(functions, below, f4);
    let f5 = spec_with_tasks(shown, again);
    let s5 = spec_waiting(functions, below, f5, Phase::AwaitPrinted);
    let ready = ReplyView::Ready;
    let r1 = ReplyView::Number(index);
    assert(spec_step(s0, ready) == (s1, RequestView::Convert(spec_natural(next as nat)))) by {
        assert(s0.stack.drop_last() =~= below);
        assert(frame.tasks.drop_last() =~= rest);
        assert(spec_runs(body) =~= seq![TaskView::Run(print)]);
        assert((again + spec_runs(body)).push(TaskView::Bind(name)) =~= f1.tasks);
    }
    assert(spec_step(s1, r1) == (s2, RequestView::Continue)) by {
        assert(s1.stack.drop_last() =~= below);
        assert(f1.tasks.drop_last() =~= f2.tasks);
    }
    assert(spec_step(s2, ready) == (s3, RequestView::Continue)) by {
        assert(s2.stack.drop_last() =~= below);
        assert(f2.tasks.drop_last() =~= again);
    }
    assert(spec_step(s3, ready) == (s4, RequestView::Continue)) by {
        assert(s3.stack.drop_last() =~= below);
        assert(f3.tasks.drop_last() =~= f4.tasks);
    }
    assert(spec_step(s4, ready) == (s5, RequestView::Print(OutputView::Text(text)))) by {
        assert(s4.stack.drop_last() =~= below);
        assert(f4.tasks.drop_last() =~= again);
    }
    lemma_unfold(host, s5, ready, 0);
    assert(spec_run(host, s5, ready, 0) == (s5, ready));
    lemma_unfold(host, s4, ready, 1);
    assert(spec_run(host, s4, ready, 1) == spec_run(host, s5, ready, 0));
    lemma_unfold(host, s3, ready, 2);
    assert(spec_run(host, s3, ready, 2) == spec_run(host, s4, ready, 1));
    lemma_unfold(host, s2, ready, 3);
    assert(spec_run(host, s2, ready, 3) == spec_run(host, s3, ready, 2));
    lemma_unfold(host, s1, r1, 4);
    assert(spec_run(host, s1, r1, 4) == spec_run(host, s2, ready, 3));
    lemma_unfold(host, s0, ready, 5);
    assert(spec_run(host, s0, ready, 5) == spec_run(host, s1, r1, 4));
    let nothing = Seq::<OutputView>::empty();
    assert(spec_printed(host, s5, ready, 0) == nothing);
    assert(spec_printed(host, s4, ready, 1) =~= seq![OutputView::Text(text)]);
    assert(spec_printed(host, s3, ready, 2) == spec_printed(host, s4, ready, 1));
    assert(spec_printed(host, s2, ready, 3) == spec_printed(host, s3, ready, 2));
    assert(spec_printed(host, s1, r1, 4) == spec_printed(host, s2, ready, 3));
    assert(spec_printed(host, s0, ready, 5) == spec_printed(host, s1, r1, 4));
}

/// The rounds of a counted loop that are left run one after the other.
///
/// Where the task of a counted loop whose body prints a text lies on top
/// of the stack, with the rounds `next..rounds` left, the machine takes
/// five steps for each round and one more, and prints the text once for
/// each round.
pub proof fn law_rounds_left(
    host: Host,
    functions: Seq<FunctionView>,
    below: Seq<FrameView>,
    frame: FrameView,
    phase: Phase,
    rest: Seq<TaskView>,
    name: Seq<char>,
    text: Seq<char>,
    next: u128,
    rounds: u128,
)
    requires
        phase == Phase::Running || phase == Phase::AwaitPrinted,
        next <= rounds,
        frame.tasks == rest.push(TaskView::Iterate(name, spec_print_text(text), next, rounds)),
    ensures
        spec_run(
            host,
            spec_waiting(functions, below, frame, phase),
            ReplyView::Ready,
            (5 * (rounds - next) + 1) as nat,
        ) == (
            spec_running(
                functions,
                below,
                spec_looped(host, frame, rest, name, text, next, rounds),
            ),
            ReplyView::Ready,
        ),
        spec_printed(
            host,
            spec_waiting(functions, below, frame, phase),
            ReplyView::Ready,
            (5 * (rounds - next) + 1) as nat,
        ) == spec_repeated(OutputView::Text(text), (rounds - next) as nat),
    decreases rounds - next,
{
    let s0 = spec_waiting(functions, below, frame, phase);
    let ready = ReplyView::Ready;
    let line = OutputView::Text(text);
    if next == rounds {
        let done = spec_running(functions, below, spec_with_tasks(frame, rest));
        assert(spec_step(s0, ready) == (done, RequestView::Continue)) by {
            assert(s0.stack.drop_last() =~= below);
            assert(frame.tasks.drop_last() =~= rest);
        }
        lemma_unfold(host, done, ready, 0);
        assert(spec_run(host, done, ready, 0) == (done, ready));
        lemma_unfold(host, s0, ready, 1);
        assert(spec_run(host, s0, ready, 1) == spec_run(host, done, ready, 0));
        assert(spec_printed(host, done, ready, 0) == Seq::<OutputView>::empty());
        assert(spec_printed(host, s0, ready, 1) == spec_printed(host, done, ready, 0));
        assert(spec_repeated(line, 0) =~= Seq::<OutputView>::empty());
    } else {
        lemma_round(host, functions, below, frame, phase, rest, name, text, next, rounds);
        let after = FrameView {
            variables: frame.variables.insert(
                name,
                ValueView::Number((host.convert)(spec_natural(next as nat))),
            ),
            current: Some(ValueView::Text(text)),
            tasks: rest.push(
                TaskView::Iterate(name, spec_print_text(text), (next + 1) as u128, rounds),
            ),
            ..frame
        };
        law_rounds_left(
            host,
            functions,
            below,
            after,
            Phase::AwaitPrinted,
            rest,
            name,
            text,
            (next + 1) as u128,
            rounds,
        );
        let left = (5 * (rounds - (next + 1)) + 1) as nat;
        lemma_run_splits(host, s0, ready, 5, left);
        assert(5 + left == (5 * (rounds - next) + 1) as nat);
        assert(seq![line] + spec_repeated(line, (rounds - (next + 1)) as nat) =~= spec_repeated(
            line,
            (rounds - next) as nat,
        ));
        assert(spec_looped(host, after, rest, name, text, (next + 1) as u128, rounds)
            == spec_looped(host, frame, rest, name, text, next, rounds)) by {
            if next + 1 < rounds {
                assert(after.variables.insert(
                    name,
                    ValueView::Number((host.convert)(spec_natural((rounds - 1) as nat))),
                ) =~= frame.variables.insert(
                    name,
                    ValueView::Number((host.convert)(spec_natural((rounds - 1) as nat))),
                ));
            }
        }
    }
}

/// A counted loop runs its body as many times as its count says.
///
/// Where the count is a numeric operand that stands for the non-negative
/// integer `rounds`, and the body prints a text, the machine takes five
/// steps for each round and four more, and prints the text `rounds`
/// times. After the loop its variable is bound to the index of the last
/// round; where the count is zero, nothing is printed and no variable is
/// bound.
pub proof fn law_counted_loop_rounds(
    host: Host,
    functions: Seq<FunctionView>,
    below: Seq<FrameView>,
    frame: FrameView,
    rest: Seq<TaskView>,
    count: NodeView,
    name: Seq<char>,
    text: Seq<char>,
    rounds: u128,
)
    requires
        spec_operand(host, frame.variables, count) is Some,
        spec_count(spec_operand(host, frame.variables, count).unwrap()) == Some(rounds as nat),
        frame.tasks == rest.push(
            TaskView::Run(
                NodeView::For(
                    Box::new(count),
                    Box::new(NodeView::Variable(name)),
                    spec_print_text(text),
                ),
            ),
        ),
    ensures
        spec_run(
            host,
            spec_running(functions, below, frame),
            ReplyView::Ready,
            (5 * rounds + 4) as nat,
        ) == (
            spec_running(
                functions,
                below,
                spec_looped(
                    host,
                    FrameView {
                        current: Some(
                            ValueView::Number(
                                spec_operand(host, frame.variables, count).unwrap(),
                            ),
                        ),
                        ..frame
                    },
                    rest,
                    name,
                    text,
                    0,
                    rounds,
                ),
            ),
            ReplyView::Ready,
        ),
        spec_printed(
            host,
            spec_running(functions, below, frame),
            ReplyView::Ready,
            (5 * rounds + 4) as nat,
        ) == spec_repeated(OutputView::Text(text), rounds as nat),
{
    let body = spec_print_text(text);
    let bits = spec_operand(host, frame.variables, count).unwrap();
    let s0 = spec_running(functions, below, frame);
    let counting = rest.push(TaskView::Count(name, body));
    let f1 = spec_with_tasks(frame, counting.push(TaskView::Run(count)));
    let s1 = spec_running(functions, below, f1);
    let ready = ReplyView::Ready;
    let nothing = Seq::<OutputView>::empty();
    assert(spec_step(s0, ready) == (s1, RequestView::Continue)) by {
        assert(s0.stack.drop_last() =~= below);
        assert(frame.tasks.drop_last() =~= rest);
    }
    let (f2, phase2, r2) = lemma_operand_step(host, functions, below, f1, counting, count);
    let s2 = spec_waiting(functions, below, f2, phase2);
    let f3 = FrameView {
        current: Some(ValueView::Number(bits)),
        tasks: rest.push(TaskView::Iterate(name, body, 0, rounds)),
        ..frame
    };
    let s3 = spec_running(functions, below, f3);
    assert(spec_step(s2, r2) == (s3, RequestView::Continue)) by {
        assert(s2.stack.drop_last() =~= below);
        assert(f2.tasks.drop_last() =~= rest);
    }
    lemma_unfold(host, s3, ready, 0);
    assert(spec_run(host, s3, ready, 0) == (s3, ready));
    lemma_unfold(host, s2, r2, 1);
    assert(spec_run(host, s2, r2, 1) == spec_run(host, s3, ready, 0));
    assert(spec_printed(host, s3, ready, 0) == nothing);
    assert(spec_printed(host, s2, r2, 1) == spec_printed(host, s3, ready, 0));
    lemma_run_splits(host, s1, ready, 1, 1);
    lemma_unfold(host, s0, ready, 3);
    assert(spec_run(host, s0, ready, 3) == spec_run(host, s1, ready, 2));
    assert(spec_printed(host, s0, ready, 3) == spec_printed(host, s1, ready, 2));
    law_rounds_left(host, functions, below, f3, Phase::Running, rest, name, text, 0, rounds);
    lemma_run_splits(host, s0, ready, 3, (5 * rounds + 1) as nat);
    assert(3 + (5 * rounds + 1) as nat == (5 * rounds + 4) as nat);
    assert(nothing + nothing =~= nothing);
    assert(nothing + spec_repeated(OutputView::Text(text), rounds as nat) =~= spec_repeated(
        OutputView::Text(text),
        rounds as nat,
    ));
    assert(spec_looped(host, f3, rest, name, text, 0, rounds) == spec_looped(
        host,
        FrameView { current: Some(ValueView::Number(bits)), ..frame },
        rest,
        name,
        text,
        0,
        rounds,
    ));
}

/// A condition loop looks at its condition before every round. Where
/// the condition holds, the body is put on the stack, above the tasks
/// that evaluate the condition and look at it again; where it does not,
/// the loop is over and its body never runs again.
pub proof fn law_condition_decides(
    functions: Seq<FunctionView>,
    below: Seq<FrameView>,
    frame: FrameView,
    rest: Seq<TaskView>,
    condition: NodeView,
    body: Seq<NodeView>,
)
    requires
        frame.tasks == rest.push(TaskView::Loop(condition, body)),
        frame.current is Some,
        spec_holds(frame.current.unwrap()) is Some,
    ensures
        spec_step(spec_running(functions, below, frame), ReplyView::Ready) == (
            spec_running(
                functions,
                below,
                spec_with_tasks(
                    frame,
                    if spec_holds(frame.current.unwrap()).unwrap() {
                        rest.push(TaskView::Loop(condition, body)).push(TaskView::Run(condition))
                            + spec_runs(body)
                    } else {
                        rest
                    },
                ),
            ),
            RequestView::Continue,
        ),
{
    let s0 = spec_running(functions, below, frame);
    assert(s0.stack.drop_last() =~= below);
    assert(frame.tasks.drop_last() =~= rest);
}

/// The body of a countdown: it prints the counter and then takes `step`
/// off it.
pub open spec fn spec_countdown(name: Seq<char>, step: NumberView) -> Seq<NodeView> {
    seq![
        NodeView::Print(Box::new(NodeView::Variable(name))),
        NodeView::AssignVariable(
            name,
            Box::new(NodeView::Variable(name)),
            seq![NodeView::Binary(BinaryOperation::Subtract, Box::new(NodeView::Float(step)))],
        ),
    ]
}

/// The counter after `rounds` rounds of a countdown that starts at
/// `counter`, with the driver's subtraction.
pub open spec fn spec_counted_down(host: Host, step: NumberView, counter: u32, rounds: nat) -> u32
    decreases rounds,
{
    if rounds == 0 {
        counter
    } else {
        spec_counted_down(
            host,
            step,
            (host.arithmetic)(BinaryOperation::Subtract, counter, (host.convert)(step)),
            (rounds - 1) as nat,
        )
    }
}

/// Whether a countdown from `counter` comes to zero after exactly
/// `rounds` rounds, and not before.
pub open spec fn spec_lasts(host: Host, step: NumberView, counter: u32, rounds: nat) -> bool {
    &&& forall|k: nat|
        k < rounds ==> spec_nonzero(#[trigger] spec_counted_down(host, step, counter, k))
    &&& !spec_nonzero(spec_counted_down(host, step, counter, rounds))
}

/// What a countdown prints: the counter before each round.
pub open spec fn spec_counters(host: Host, step: NumberView, counter: u32, rounds: nat) -> Seq<
    OutputView,
> {
    Seq::new(rounds, |k: int| OutputView::Number(spec_counted_down(host, step, counter, k as nat)))
}

/// A condition loop runs its body as long as its condition holds, and
/// not once more.
///
/// Where the condition is a counter, the body prints the counter and
/// takes a step off it, and the driver's subtraction brings the counter
/// to zero after exactly `rounds` rounds, the machine takes eleven steps
/// for each round and one more, prints the counter before each round, and
/// leaves the loop with the counter at zero.
pub proof fn law_countdown_rounds(
    host: Host,
    functions: Seq<FunctionView>,
    below: Seq<FrameView>,
    frame: FrameView,
    rest: Seq<TaskView>,
    name: Seq<char>,
    step: NumberView,
    counter: u32,
    rounds: nat,
)
    requires
        frame.tasks == rest.push(
            TaskView::Loop(NodeView::Variable(name), spec_countdown(name, step)),
        ),
        frame.current == Some(ValueView::Number(counter)),
        frame.variables.contains_key(name),
        frame.variables[name] == ValueView::Number(counter),
        spec_lasts(host, step, counter, rounds),
    ensures
        spec_run(host, spec_running(functions, below, frame), ReplyView::Ready, 11 * rounds + 1)
            == (
            spec_running(
                functions,
                below,
                spec_assigned(
                    frame,
                    rest,
                    name,
                    spec_counted_down(host, step, counter, rounds),
                ),
            ),
            ReplyView::Ready,
        ),
        spec_printed(
            host,
            spec_running(functions, below, frame),
            ReplyView::Ready,
            11 * rounds + 1,
        ) == spec_counters(host, step, counter, rounds),
    decreases rounds,
{
    let body = spec_countdown(name, step);
    let condition = NodeView::Variable(name);
    let s0 = spec_running(functions, below, frame);
    let ready = ReplyView::Ready;
    let nothing = Seq::<OutputView>::empty();
    assert(spec_counted_down(host, step, counter, 0) == counter);
    law_condition_decides(functions, below, frame, rest, condition, body);
    if rounds == 0 {
        let done = spec_running(functions, below, spec_with_tasks(frame, rest));
        assert(frame.variables.insert(name, ValueView::Number(counter)) =~= frame.variables);
        lemma_unfold(host, done, ready, 0);
        assert(spec_run(host, done, ready, 0) == (done, ready));
        lemma_unfold(host, s0, ready, 1);
        assert(spec_run(host, s0, ready, 1) == spec_run(host, done, ready, 0));
        assert(spec_printed(host, done, ready, 0) == nothing);
        assert(spec_printed(host, s0, ready, 1) == spec_printed(host, done, ready, 0));
        assert(spec_counters(host, step, counter, 0) =~= nothing);
    } else {
        let print = TaskView::Run(body[0]);
        let assign = TaskView::Run(body[1]);
        let looping = rest.push(TaskView::Loop(condition, body));
        let testing = looping.push(TaskView::Run(condition));
        let next = (host.arithmetic)(BinaryOperation::Subtract, counter, (host.convert)(step));
        let operations = seq![
            NodeView::Binary(BinaryOperation::Subtract, Box::new(NodeView::Float(step))),
        ];
        // The test puts the body on the stack.
        let f1 = spec_with_tasks(frame, testing.push(assign).push(print));
        let s1 = spec_running(functions, below, f1);
        assert(spec_nonzero(counter));
        assert(testing + spec_runs(body) =~= f1.tasks);
        lemma_unfold(host, s1, ready, 0);
        assert(spec_run(host, s1, ready, 0) == (s1, ready));
        lemma_unfold(host, s0, ready, 1);
        assert(spec_run(host, s0, ready, 1) == spec_run(host, s1, ready, 0));
        assert(spec_printed(host, s1, ready, 0) == nothing);
        assert(spec_printed(host, s0, ready, 1) == spec_printed(host, s1, ready, 0));
        // The counter is printed.
        law_print_variable(
            host,
            functions,
            below,
            f1,
            Phase::Running,
            testing.push(assign),
            name,
        );
        let f2 = FrameView { tasks: testing.push(assign), ..frame };
        let s2 = spec_waiting(functions, below, f2, Phase::AwaitPrinted);
        assert(f2 == FrameView {
            current: Some(f1.variables[name]),
            tasks: testing.push(assign),
            ..f1
        });
        // A step is taken off the counter.
        assert(spec_is_chain(host, f2.variables, operations));
        assert(body[1] == NodeView::AssignVariable(name, Box::new(condition), operations));
        law_assignment_folds(
            host,
            functions,
            below,
            f2,
            Phase::AwaitPrinted,
            testing,
            name,
            condition,
            operations,
        );
        assert(spec_fold(host, f2.variables, counter, operations) == next) by {
            assert(operations.drop_first().len() == 0);
            assert(spec_fold(host, f2.variables, next, operations.drop_first()) == next);
        }
        let f3 = spec_assigned(f2, testing, name, next);
        let s3 = spec_running(functions, below, f3);
        // The condition is evaluated again.
        let (f4, phase4, r4) = lemma_operand_step(host, functions, below, f3, looping, condition);
        assert(phase4 == Phase::Running && r4 == ready);
        assert(f4 == FrameView { tasks: looping, ..f3 });
        // The rounds that are left.
        assert(spec_lasts(host, step, next, (rounds - 1) as nat)) by {
            assert forall|k: nat| k < rounds - 1 implies spec_nonzero(
                #[trigger] spec_counted_down(host, step, next, k),
            ) by {
                assert(spec_counted_down(host, step, counter, k + 1) == spec_counted_down(
                    host,
                    step,
                    next,
                    k,
                ));
            }
        }
        law_countdown_rounds(
            host,
            functions,
            below,
            f4,
            rest,
            name,
            step,
            next,
            (rounds - 1) as nat,
        );
        let last = spec_counted_down(host, step, counter, rounds);
        assert(spec_assigned(f4, rest, name, last) == spec_assigned(frame, rest, name, last)) by {
            assert(f4.variables.insert(name, ValueView::Number(last))
                =~= frame.variables.insert(name, ValueView::Number(last)));
        }
        let left = (11 * (rounds - 1) + 1) as nat;
        lemma_run_splits(host, s0, ready, 1, 3);
        lemma_run_splits(host, s0, ready, 4, 6);
        lemma_run_splits(host, s0, ready, 10, 1);
        lemma_run_splits(host, s0, ready, 11, left);
        lemma_unfold(host, s0, ready, 4);
        assert(spec_run(host, s0, ready, 4) == (s2, ready));
        lemma_unfold(host, s0, ready, 10);
        assert(spec_run(host, s0, ready, 10) == (s3, ready));
        lemma_unfold(host, s0, ready, 11);
        assert(spec_run(host, s0, ready, 11) == (spec_running(functions, below, f4), ready));
        assert(11 + left == 11 * rounds + 1);
        let line = seq![OutputView::Number(counter)];
        assert(spec_printed(host, s0, ready, 4) =~= line);
        assert(spec_printed(host, s0, ready, 10) =~= line);
        assert(spec_printed(host, s0, ready, 11) =~= line);
        assert(line + spec_counters(host, step, next, (rounds - 1) as nat) =~= spec_counters(
            host,
            step,
            counter,
            rounds,
        )) by {
            assert forall|k: int| 1 <= k < rounds implies #[trigger] spec_counted_down(
                host,
                step,
                counter,
                k as nat,
            ) == spec_counted_down(host, step, next, (k - 1) as nat) by {}
        }
    }
}

/// A condition loop over a countdown, from its statement on: two steps
/// lead to the first look at the condition, and from there the rounds run
/// as `law_countdown_rounds` says.
pub proof fn law_countdown_loop(
    host: Host,
    functions: Seq<FunctionView>,
    below: Seq<FrameView>,
    frame: FrameView,
    phase: Phase,
    rest: Seq<TaskView>,
    name: Seq<char>,
    step: NumberView,
    counter: u32,
    rounds: nat,
)
    requires
        spec_ready(phase),
        frame.tasks == rest.push(
            TaskView::Run(
                NodeView::While(Box::new(NodeView::Variable(name)), spec_countdown(name, step)),
            ),
        ),
        frame.variables.contains_key(name),
        frame.variables[name] == ValueView::Number(counter),
        spec_lasts(host, step, counter, rounds),
    ensures
        spec_run(
            host,
            spec_waiting(functions, below, frame, phase),
            ReplyView::Ready,
            11 * rounds + 3,
        ) == (
            spec_running(
                functions,
                below,
                spec_assigned(
                    frame,
                    rest,
                    name,
                    spec_counted_down(host, step, counter, rounds),
                ),
            ),
            ReplyView::Ready,
        ),
        spec_printed(
            host,
            spec_waiting(functions, below, frame, phase),
            ReplyView::Ready,
            11 * rounds + 3,
        ) == spec_counters(host, step, counter, rounds),
{
    let body = spec_countdown(name, step);
    let condition = NodeView::Variable(name);
    let looping = rest.push(TaskView::Loop(condition, body));
    let s0 = spec_waiting(functions, below, frame, phase);
    let f1 = spec_with_tasks(frame, looping.push(TaskView::Run(condition)));
    let s1 = spec_running(functions, below, f1);
    let ready = ReplyView::Ready;
    let nothing = Seq::<OutputView>::empty();
    assert(spec_step(s0, ready) == (s1, RequestView::Continue)) by {
        assert(s0.stack.drop_last() =~= below);
        assert(frame.tasks.drop_last() =~= rest);
    }
    let (f2, phase2, r2) = lemma_operand_step(host, functions, below, f1, looping, condition);
    assert(phase2 == Phase::Running && r2 == ready);
    lemma_unfold(host, s0, ready, 2);
    assert(spec_run(host, s0, ready, 2) == spec_run(host, s1, ready, 1));
    assert(spec_printed(host, s0, ready, 2) == spec_printed(host, s1, ready, 1));
    law_countdown_rounds(host, functions, below, f2, rest, name, step, counter, rounds);
    lemma_run_splits(host, s0, ready, 2, 11 * rounds + 1);
    assert(2 + (11 * rounds + 1) == 11 * rounds + 3);
    assert(nothing + spec_counters(host, step, counter, rounds) =~= spec_counters(
        host,
        step,
        counter,
        rounds,
    ));
    let last = spec_counted_down(host, step, counter, rounds);
    assert(spec_assigned(f2, rest, name, last) == spec_assigned(frame, rest, name, last));
}

} // verus!
