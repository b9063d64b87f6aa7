//! Laws of assignments: chained operations apply from left to right,
//! comparisons give truth values, and logic is computed on the spot.
use vstd::prelude::*;
use crate::ast::{BinaryOperation, NodeView};
use crate::frame::{spec_with_tasks, FrameView, FunctionView};
use crate::interpreter::{spec_receive, spec_step, ReceivedView};
use crate::laws::{lemma_run_splits, lemma_runs_first, lemma_unfold, spec_printed, spec_ready,
    spec_run, spec_running, spec_waiting, Host};
use crate::protocol::{OutputView, Phase, ReplyView, RequestView};
use crate::task::{spec_runs, TaskView};
use crate::value::ValueView;

verus! {

/// The six operations of arithmetic.
pub open spec fn spec_is_arithmetic(operation: BinaryOperation) -> bool {
    operation is Add || operation is Subtract || operation is Multiply || operation is Divide
        || operation is Exponent || operation is Modulus
}

/// The number that an operand stands for: a numeric literal for what the
/// driver converts it to, a variable for the number that it is bound to.
/// Nothing else is a numeric operand.
pub open spec fn spec_operand(
    host: Host,
    variables: Map<Seq<char>, ValueView>,
    operand: NodeView,
) -> Option<u32> {
    match operand {
        NodeView::Float(number) => Some((host.convert)(number)),
        NodeView::Variable(name) => if variables.contains_key(name) {
            match variables[name] {
                ValueView::Number(bits) => Some(bits),
                _ => None,
            }
        } else {
            None
        },
        _ => None,
    }
}

/// Every node is an arithmetic operation on a numeric operand.
pub open spec fn spec_is_chain(
    host: Host,
    variables: Map<Seq<char>, ValueView>,
    operations: Seq<NodeView>,
) -> bool {
    forall|i: int|
        0 <= i < operations.len() ==> match #[trigger] operations[i] {
            NodeView::Binary(operation, operand) => spec_is_arithmetic(operation) && spec_operand(
                host,
                variables,
                *operand,
            ) is Some,
            _ => false,
        }
}

/// The running value `first` taken through the operations from left to
/// right, each applied by the driver to the value so far and its operand.
pub open spec fn spec_fold(
    host: Host,
    variables: Map<Seq<char>, ValueView>,
    first: u32,
    operations: Seq<NodeView>,
) -> u32
    decreases operations.len(),
{
    if operations.len() == 0 {
        first
    } else {
        match operations[0] {
            NodeView::Binary(operation, operand) => spec_fold(
                host,
                variables,
                (host.arithmetic)(
                    operation,
                    first,
                    spec_operand(host, variables, *operand).unwrap(),
                ),
                operations.drop_first(),
            ),
            _ => first,
        }
    }
}

/// Whether the next step starts with `bits` as the current value: either
/// the machine waits for a number and `bits` is the reply, or it waits
/// for nothing and `bits` is current already.
pub open spec fn spec_carries(frame: FrameView, phase: Phase, reply: ReplyView, bits: u32) -> bool {
    ||| phase == Phase::AwaitNumber && reply == ReplyView::Number(bits)
    ||| phase == Phase::Running && reply == ReplyView::Ready && frame.current == Some(
        ValueView::Number(bits),
    )
}

/// The frame after a numeric operand was evaluated: a variable's number
/// is the current value already, a literal's is still to come.
pub open spec fn spec_evaluated(
    frame: FrameView,
    rest: Seq<TaskView>,
    operand: NodeView,
    bits: u32,
) -> FrameView {
    FrameView {
        current: if operand is Float {
            frame.current
        } else {
            Some(ValueView::Number(bits))
        },
        tasks: rest,
        ..frame
    }
}

/// Evaluating a numeric operand takes one step, after which the next
/// step starts with the operand's number as the current value.
pub proof fn lemma_operand_step(
    host: Host,
    functions: Seq<FunctionView>,
    below: Seq<FrameView>,
    frame: FrameView,
    rest: Seq<TaskView>,
    operand: NodeView,
) -> (after: (FrameView, Phase, ReplyView))
    requires
        spec_operand(host, frame.variables, operand) is Some,
        frame.tasks == rest.push(TaskView::Run(operand)),
    ensures
        spec_run(host, spec_running(functions, below, frame), ReplyView::Ready, 1) == (
            spec_waiting(functions, below, after.0, after.1),
            after.2,
        ),
        spec_printed(host, spec_running(functions, below, frame), ReplyView::Ready, 1) == Seq::<
            OutputView,
        >::empty(),
        spec_carries(
            after.0,
            after.1,
            after.2,
            spec_operand(host, frame.variables, operand).unwrap(),
        ),
        after.0 == spec_evaluated(
            frame,
            rest,
            operand,
            spec_operand(host, frame.variables, operand).unwrap(),
        ),
        operand is Variable ==> after.1 == Phase::Running && after.2 == ReplyView::Ready,
{
    let bits = spec_operand(host, frame.variables, operand).unwrap();
    let s0 = spec_running(functions, below, frame);
    let after = if operand is Float {
        (spec_with_tasks(frame, rest), Phase::AwaitNumber, ReplyView::Number(bits))
    } else {
        (
            FrameView { current: Some(ValueView::Number(bits)), tasks: rest, ..frame },
            Phase::Running,
            ReplyView::Ready,
        )
    };
    let s1 = spec_waiting(functions, below, after.0, after.1);
    let request = if operand is Float {
        RequestView::Convert(operand->Float_0)
    } else {
        RequestView::Continue
    };
    assert(spec_step(s0, ReplyView::Ready) == (s1, request)) by {
        assert(s0.stack.drop_last() =~= below);
        assert(frame.tasks.drop_last() =~= rest);
    }
    lemma_unfold(host, s1, after.2, 0);
    assert(spec_run(host, s1, after.2, 0) == (s1, after.2));
    lemma_unfold(host, s0, ReplyView::Ready, 1);
    assert(spec_run(host, s0, ReplyView::Ready, 1) == spec_run(host, s1, after.2, 0));
    assert(spec_printed(host, s1, after.2, 0) == Seq::<OutputView>::empty());
    assert(spec_printed(host, s0, ReplyView::Ready, 1) == spec_printed(host, s1, after.2, 0));
    after
}

/// One operation of a chain takes three steps: its operand is put on the
/// stack, the operand is evaluated, and the operation is handed to the
/// driver with the running value on the left.
proof fn lemma_operation_steps(
    host: Host,
    functions: Seq<FunctionView>,
    below: Seq<FrameView>,
    frame: FrameView,
    phase: Phase,
    reply: ReplyView,
    rest: Seq<TaskView>,
    bits: u32,
    operation: BinaryOperation,
    operand: NodeView,
)
    requires
        spec_carries(frame, phase, reply, bits),
        spec_is_arithmetic(operation),
        spec_operand(host, frame.variables, operand) is Some,
        frame.tasks == rest.push(TaskView::Run(NodeView::Binary(operation, Box::new(operand)))),
    ensures
        spec_run(host, spec_waiting(functions, below, frame, phase), reply, 3) == (
            spec_waiting(
                functions,
                below,
                FrameView {
                    current: Some(
                        ValueView::Number(spec_operand(host, frame.variables, operand).unwrap()),
                    ),
                    tasks: rest,
                    ..frame
                },
                Phase::AwaitNumber,
            ),
            ReplyView::Number(
                (host.arithmetic)(
                    operation,
                    bits,
                    spec_operand(host, frame.variables, operand).unwrap(),
                ),
            ),
        ),
        spec_printed(host, spec_waiting(functions, below, frame, phase), reply, 3) == Seq::<
            OutputView,
        >::empty(),
{
    let left = ValueView::Number(bits);
    let right = spec_operand(host, frame.variables, operand).unwrap();
    let s0 = spec_waiting(functions, below, frame, phase);
    let kept = rest.push(TaskView::Operate(operation, left));
    let f1 = FrameView { current: Some(left), tasks: kept.push(TaskView::Run(operand)), ..frame };
    let s1 = spec_running(functions, below, f1);
    let ready = ReplyView::Ready;
    let nothing = Seq::<OutputView>::empty();
    assert(spec_step(s0, reply) == (s1, RequestView::Continue)) by {
        assert(s0.stack.drop_last() =~= below);
        assert(frame.tasks.drop_last() =~= rest);
    }
    let (f2, phase2, r2) = lemma_operand_step(host, functions, below, f1, kept, operand);
    let s2 = spec_waiting(functions, below, f2, phase2);
    let f3 = FrameView { current: Some(ValueView::Number(right)), tasks: rest, ..frame };
    let s3 = spec_waiting(functions, below, f3, Phase::AwaitNumber);
    let r3 = ReplyView::Number((host.arithmetic)(operation, bits, right));
    assert(spec_step(s2, r2) == (s3, RequestView::Arithmetic(operation, bits, right))) by {
        assert(s2.stack.drop_last() =~= below);
        assert(f2.tasks.drop_last() =~= rest);
    }
    lemma_unfold(host, s3, r3, 0);
    assert(spec_run(host, s3, r3, 0) == (s3, r3));
    lemma_unfold(host, s2, r2, 1);
    assert(spec_run(host, s2, r2, 1) == spec_run(host, s3, r3, 0));
    assert(spec_printed(host, s3, r3, 0) == nothing);
    assert(spec_printed(host, s2, r2, 1) == spec_printed(host, s3, r3, 0));
    lemma_run_splits(host, s1, ready, 1, 1);
    lemma_unfold(host, s0, reply, 3);
    assert(spec_run(host, s0, reply, 3) == spec_run(host, s1, ready, 2));
    assert(spec_printed(host, s0, reply, 3) == spec_printed(host, s1, ready, 2));
    assert(nothing + nothing =~= nothing);
}

/// The frame after an assignment to `name` whose chain came to `total`.
pub open spec fn spec_assigned(
    frame: FrameView,
    rest: Seq<TaskView>,
    name: Seq<char>,
    total: u32,
) -> FrameView {
    FrameView {
        variables: frame.variables.insert(name, ValueView::Number(total)),
        current: Some(ValueView::Number(total)),
        tasks: rest,
        ..frame
    }
}

/// Chained operations apply in the order in which they are listed.
///
/// Where the tasks of a chain of arithmetic operations on numeric
/// operands lie on the stack above the task that binds `name`, and the
/// running value is the number `first`, the machine takes three steps for
/// each operation and one more, prints nothing, and leaves `name` bound
/// to the left-to-right fold of `first` through the operations. Nothing
/// else in the frame changes, and what lay below stays on the stack.
pub proof fn law_chain_folds(
    host: Host,
    functions: Seq<FunctionView>,
    below: Seq<FrameView>,
    frame: FrameView,
    phase: Phase,
    reply: ReplyView,
    rest: Seq<TaskView>,
    name: Seq<char>,
    first: u32,
    operations: Seq<NodeView>,
)
    requires
        spec_carries(frame, phase, reply, first),
        spec_is_chain(host, frame.variables, operations),
        frame.tasks == rest.push(TaskView::Bind(name)) + spec_runs(operations),
    ensures
        spec_run(
            host,
            spec_waiting(functions, below, frame, phase),
            reply,
            3 * operations.len() + 1,
        ) == (
            spec_running(
                functions,
                below,
                spec_assigned(
                    frame,
                    rest,
                    name,
                    spec_fold(host, frame.variables, first, operations),
                ),
            ),
            ReplyView::Ready,
        ),
        spec_printed(
            host,
            spec_waiting(functions, below, frame, phase),
            reply,
            3 * operations.len() + 1,
        ) == Seq::<OutputView>::empty(),
    decreases operations.len(),
{
    let s0 = spec_waiting(functions, below, frame, phase);
    let nothing = Seq::<OutputView>::empty();
    if operations.len() == 0 {
        let done = spec_running(functions, below, spec_assigned(frame, rest, name, first));
        assert(spec_step(s0, reply) == (done, RequestView::Continue)) by {
            assert(s0.stack.drop_last() =~= below);
            assert(frame.tasks =~= rest.push(TaskView::Bind(name)));
            assert(frame.tasks.drop_last() =~= rest);
        }
        lemma_unfold(host, done, ReplyView::Ready, 0);
        assert(spec_run(host, done, ReplyView::Ready, 0) == (done, ReplyView::Ready));
        lemma_unfold(host, s0, reply, 1);
        assert(spec_run(host, s0, reply, 1) == spec_run(host, done, ReplyView::Ready, 0));
        assert(spec_printed(host, done, ReplyView::Ready, 0) == nothing);
        assert(spec_printed(host, s0, reply, 1) == spec_printed(host, done, ReplyView::Ready, 0));
    } else {
        let tail = operations.drop_first();
        let base = rest.push(TaskView::Bind(name)) + spec_runs(tail);
        lemma_runs_first(operations);
        assert(frame.tasks =~= base.push(TaskView::Run(operations[0])));
        match operations[0] {
            NodeView::Binary(operation, operand) => {
                let right = spec_operand(host, frame.variables, *operand).unwrap();
                let next = (host.arithmetic)(operation, first, right);
                assert(operand == Box::new(*operand));
                lemma_operation_steps(
                    host,
                    functions,
                    below,
                    frame,
                    phase,
                    reply,
                    base,
                    first,
                    operation,
                    *operand,
                );
                let middle = FrameView {
                    current: Some(ValueView::Number(right)),
                    tasks: base,
                    ..frame
                };
                assert(spec_is_chain(host, middle.variables, tail)) by {
                    assert forall|i: int| 0 <= i < tail.len() implies match #[trigger] tail[i] {
                        NodeView::Binary(operation, operand) => spec_is_arithmetic(operation)
                            && spec_operand(host, middle.variables, *operand) is Some,
                        _ => false,
                    } by {
                        assert(tail[i] == operations[i + 1]);
                    }
                }
                law_chain_folds(
                    host,
                    functions,
                    below,
                    middle,
                    Phase::AwaitNumber,
                    ReplyView::Number(next),
                    rest,
                    name,
                    next,
                    tail,
                );
                lemma_run_splits(host, s0, reply, 3, 3 * tail.len() + 1);
                assert(3 + (3 * tail.len() + 1) == 3 * operations.len() + 1);
                assert(spec_assigned(
                    middle,
                    rest,
                    name,
                    spec_fold(host, middle.variables, next, tail),
                ) == spec_assigned(
                    frame,
                    rest,
                    name,
                    spec_fold(host, frame.variables, first, operations),
                ));
                assert(nothing + nothing =~= nothing);
            },
            _ => {},
        }
    }
}

/// An assignment whose first value is a numeric operand and whose
/// operations are arithmetic operations on numeric operands binds its
/// target to the left-to-right fold of the first value through the
/// operations: no operation is applied before one that is listed before
/// it. The machine takes three steps for each operation and three more,
/// and prints nothing.
pub proof fn law_assignment_folds(
    host: Host,
    functions: Seq<FunctionView>,
    below: Seq<FrameView>,
    frame: FrameView,
    phase: Phase,
    rest: Seq<TaskView>,
    name: Seq<char>,
    first: NodeView,
    operations: Seq<NodeView>,
)
    requires
        spec_ready(phase),
        spec_operand(host, frame.variables, first) is Some,
        spec_is_chain(host, frame.variables, operations),
        frame.tasks == rest.push(
            TaskView::Run(NodeView::AssignVariable(name, Box::new(first), operations)),
        ),
    ensures
        spec_run(
            host,
            spec_waiting(functions, below, frame, phase),
            ReplyView::Ready,
            3 * operations.len() + 3,
        ) == (
            spec_running(
                functions,
                below,
                spec_assigned(
                    frame,
                    rest,
                    name,
                    spec_fold(
                        host,
                        frame.variables,
                        spec_operand(host, frame.variables, first).unwrap(),
                        operations,
                    ),
                ),
            ),
            ReplyView::Ready,
        ),
        spec_printed(
            host,
            spec_waiting(functions, below, frame, phase),
            ReplyView::Ready,
            3 * operations.len() + 3,
        ) == Seq::<OutputView>::empty(),
{
    let s0 = spec_waiting(functions, below, frame, phase);
    let chain = rest.push(TaskView::Bind(name)) + spec_runs(operations);
    let f1 = spec_with_tasks(frame, chain.push(TaskView::Run(first)));
    let s1 = spec_running(functions, below, f1);
    let ready = ReplyView::Ready;
    let nothing = Seq::<OutputView>::empty();
    let bits = spec_operand(host, frame.variables, first).unwrap();
    assert(spec_step(s0, ready) == (s1, RequestView::Continue)) by {
        assert(s0.stack.drop_last() =~= below);
        assert(frame.tasks.drop_last() =~= rest);
    }
    let (f2, phase2, r2) = lemma_operand_step(host, functions, below, f1, chain, first);
    let s2 = spec_waiting(functions, below, f2, phase2);
    lemma_unfold(host, s0, ready, 2);
    assert(spec_run(host, s0, ready, 2) == spec_run(host, s1, ready, 1));
    assert(spec_printed(host, s0, ready, 2) == spec_printed(host, s1, ready, 1));
    law_chain_folds(host, functions, below, f2, phase2, r2, rest, name, bits, operations);
    lemma_run_splits(host, s0, ready, 2, 3 * operations.len() + 1);
    assert(2 + (3 * operations.len() + 1) == 3 * operations.len() + 3);
    assert(nothing + nothing =~= nothing);
    assert(spec_assigned(f2, rest, name, spec_fold(host, f2.variables, bits, operations))
        == spec_assigned(frame, rest, name, spec_fold(host, frame.variables, bits, operations)));
}

/// The three comparisons.
pub open spec fn spec_is_comparison(operation: BinaryOperation) -> bool {
    operation is Equal || operation is GreaterThan || operation is LessThan
}

/// A comparison of two numbers is handed to the driver, the running
/// value on the left, and only a truth value answers it: the truth value
/// becomes the current value, and any other reply ends the run.
pub proof fn law_comparison_gives_boolean(
    functions: Seq<FunctionView>,
    below: Seq<FrameView>,
    frame: FrameView,
    rest: Seq<TaskView>,
    operation: BinaryOperation,
    left: u32,
    right: u32,
    reply: ReplyView,
)
    requires
        spec_is_comparison(operation),
        frame.tasks == rest.push(TaskView::Operate(operation, ValueView::Number(left))),
        frame.current == Some(ValueView::Number(right)),
    ensures
        spec_step(spec_running(functions, below, frame), ReplyView::Ready) == (
            spec_waiting(functions, below, spec_with_tasks(frame, rest), Phase::AwaitBoolean),
            RequestView::Compare(operation, left, right),
        ),
        match reply {
            ReplyView::Boolean(truth) => spec_receive(Phase::AwaitBoolean, reply)
                == ReceivedView::Proceed(Some(ValueView::Boolean(truth))),
            _ => spec_receive(Phase::AwaitBoolean, reply) is Fail,
        },
{
    let s0 = spec_running(functions, below, frame);
    assert(s0.stack.drop_last() =~= below);
    assert(frame.tasks.drop_last() =~= rest);
}

/// A logical operation on two truth values gives their disjunction or
/// conjunction as the current value, in one step and without the driver.
pub proof fn law_logic_is_computed(
    functions: Seq<FunctionView>,
    below: Seq<FrameView>,
    frame: FrameView,
    rest: Seq<TaskView>,
    operation: BinaryOperation,
    left: bool,
    right: bool,
)
    requires
        operation is Or || operation is And,
        frame.tasks == rest.push(TaskView::Operate(operation, ValueView::Boolean(left))),
        frame.current == Some(ValueView::Boolean(right)),
    ensures
        spec_step(spec_running(functions, below, frame), ReplyView::Ready) == (
            spec_running(
                functions,
                below,
                FrameView {
                    current: Some(
                        ValueView::Boolean(
                            if operation is Or {
                                left || right
                            } else {
                                left && right
                            },
                        ),
                    ),
                    tasks: rest,
                    ..frame
                },
            ),
            RequestView::Continue,
        ),
{
    let s0 = spec_running(functions, below, frame);
    assert(s0.stack.drop_last() =~= below);
    assert(frame.tasks.drop_last() =~= rest);
}

/// Negation turns the current truth value around, in one step and
/// without the driver.
pub proof fn law_negation_is_computed(
    functions: Seq<FunctionView>,
    below: Seq<FrameView>,
    frame: FrameView,
    rest: Seq<TaskView>,
    truth: bool,
)
    requires
        frame.tasks == rest.push(
            TaskView::Run(NodeView::Unary(crate::ast::UnaryOperation::Not)),
        ),
        frame.current == Some(ValueView::Boolean(truth)),
    ensures
        spec_step(spec_running(functions, below, frame), ReplyView::Ready) == (
            spec_running(
                functions,
                below,
                FrameView { current: Some(ValueView::Boolean(!truth)), tasks: rest, ..frame },
            ),
            RequestView::Continue,
        ),
{
    let s0 = spec_running(functions, below, frame);
    assert(s0.stack.drop_last() =~= below);
    assert(frame.tasks.drop_last() =~= rest);
}

} // verus!
