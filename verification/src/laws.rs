//! What holds of every run of the interpreter.
//!
//! A run is what repeated steps make of the replies of a driver. The
//! driver is any three functions: one that converts numerals to numbers,
//! one for arithmetic and one for comparisons. It answers every request
//! for input with the end of the input.
//!
//! This module defines runs. The laws stand in its parts: [`programs`]
//! for whole programs, [`chains`] for assignments and their operations,
//! [`loops`] for the two kinds of loop, and [`calls`] for the variables of
//! a called function.
use vstd::prelude::*;
use crate::ast::{BinaryOperation, NodeView};
use crate::frame::{FrameView, FunctionView};
use crate::interpreter::{spec_start, spec_step, StateView};
use crate::number::NumberView;
use crate::protocol::{OutputView, Phase, ReplyView, RequestView};
use crate::task::{spec_runs, TaskView};

pub mod programs;
pub mod chains;
pub mod loops;
pub mod calls;

verus! {

/// A driver, as far as its replies depend on what it computes.
pub struct Host {
    pub convert: spec_fn(NumberView) -> u32,
    pub arithmetic: spec_fn(BinaryOperation, u32, u32) -> u32,
    pub compare: spec_fn(BinaryOperation, u32, u32) -> bool,
}

/// The driver's reply to a request.
pub open spec fn spec_answer(host: Host, request: RequestView) -> ReplyView {
    match request {
        RequestView::Convert(number) => ReplyView::Number((host.convert)(number)),
        RequestView::Arithmetic(operation, x, y) => ReplyView::Number(
            (host.arithmetic)(operation, x, y),
        ),
        RequestView::Compare(operation, x, y) => ReplyView::Boolean(
            (host.compare)(operation, x, y),
        ),
        RequestView::Read => ReplyView::Line(None),
        _ => ReplyView::Ready,
    }
}

/// The machine after `steps` steps with the driver, the first of which
/// takes in `reply`; and the reply that the next step would take in.
#[verifier::opaque]
pub open spec fn spec_run(host: Host, s: StateView, reply: ReplyView, steps: nat) -> (
    StateView,
    ReplyView,
)
    decreases steps,
{
    if steps == 0 {
        (s, reply)
    } else {
        let (next, request) = spec_step(s, reply);
        spec_run(host, next, spec_answer(host, request), (steps - 1) as nat)
    }
}

/// What the machine hands out to be printed during those steps, in
/// order.
#[verifier::opaque]
pub open spec fn spec_printed(host: Host, s: StateView, reply: ReplyView, steps: nat) -> Seq<
    OutputView,
>
    decreases steps,
{
    if steps == 0 {
        Seq::empty()
    } else {
        let (next, request) = spec_step(s, reply);
        let rest = spec_printed(host, next, spec_answer(host, request), (steps - 1) as nat);
        match request {
            RequestView::Print(output) => seq![output] + rest,
            _ => rest,
        }
    }
}

/// What a run of no step and a run of at least one step are.
pub proof fn lemma_unfold(host: Host, s: StateView, reply: ReplyView, steps: nat)
    ensures
        spec_run(host, s, reply, steps) == if steps == 0 {
            (s, reply)
        } else {
            spec_run(
                host,
                spec_step(s, reply).0,
                spec_answer(host, spec_step(s, reply).1),
                (steps - 1) as nat,
            )
        },
        spec_printed(host, s, reply, steps) == if steps == 0 {
            Seq::<OutputView>::empty()
        } else {
            let rest = spec_printed(
                host,
                spec_step(s, reply).0,
                spec_answer(host, spec_step(s, reply).1),
                (steps - 1) as nat,
            );
            match spec_step(s, reply).1 {
                RequestView::Print(output) => seq![output] + rest,
                _ => rest,
            }
        },
{
    reveal_with_fuel(spec_run, 2);
    reveal_with_fuel(spec_printed, 2);
}

/// A run of `a + b` steps is a run of `a` steps followed by a run of `b`
/// steps, and prints what the two print.
pub proof fn lemma_run_splits(host: Host, s: StateView, reply: ReplyView, a: nat, b: nat)
    ensures
        spec_run(host, s, reply, a + b) == spec_run(
            host,
            spec_run(host, s, reply, a).0,
            spec_run(host, s, reply, a).1,
            b,
        ),
        spec_printed(host, s, reply, a + b) == spec_printed(host, s, reply, a) + spec_printed(
            host,
            spec_run(host, s, reply, a).0,
            spec_run(host, s, reply, a).1,
            b,
        ),
    decreases a,
{
    lemma_unfold(host, s, reply, a);
    lemma_unfold(host, s, reply, a + b);
    if a == 0 {
        assert(spec_printed(host, s, reply, 0) + spec_printed(host, s, reply, b) =~= spec_printed(
            host,
            s,
            reply,
            b,
        ));
    } else {
        let (next, request) = spec_step(s, reply);
        let answer = spec_answer(host, request);
        lemma_run_splits(host, next, answer, (a - 1) as nat, b);
        let head = spec_printed(host, next, answer, (a - 1) as nat);
        let (middle, pending) = spec_run(host, next, answer, (a - 1) as nat);
        let tail = spec_printed(host, middle, pending, b);
        assert(((a + b) - 1) as nat == (a - 1) as nat + b);
        match request {
            RequestView::Print(output) => {
                assert(seq![output] + (head + tail) =~= (seq![output] + head) + tail);
            },
            _ => {},
        }
    }
}

/// A machine can go on: it has finished, has failed, or has a frame.
pub open spec fn spec_sound(s: StateView) -> bool {
    s.phase is Finished || s.phase is Failed || s.stack.len() > 0
}

/// A step keeps a machine sound, so a run that starts with what
/// `evaluate` gives never ends for want of a frame.
pub proof fn law_steps_keep_sound(s: StateView, reply: ReplyView)
    requires
        spec_sound(s),
    ensures
        spec_sound(spec_step(s, reply).0),
{
}

/// The machine at the start of a run is sound.
pub proof fn law_start_is_sound(functions: Seq<FunctionView>, body: Seq<NodeView>)
    ensures
        spec_sound(spec_start(functions, body)),
{
}

/// The table of functions is read-only: no step changes it.
pub proof fn law_functions_stay(s: StateView, reply: ReplyView)
    ensures
        spec_step(s, reply).0.functions == s.functions,
{
}

/// A step works on the topmost frame and, where that frame returns, on
/// its caller: every frame further down stays on the stack as it is.
pub proof fn law_lower_frames_stay(s: StateView, reply: ReplyView, i: int)
    requires
        0 <= i < s.stack.len() - 2,
    ensures
        i < spec_step(s, reply).0.stack.len(),
        spec_step(s, reply).0.stack[i] == s.stack[i],
{
}

/// A machine that has finished or failed stays as it is, whatever the
/// reply, and asks for nothing more.
pub proof fn law_halted_stays(s: StateView, reply: ReplyView)
    requires
        s.phase is Finished || s.phase is Failed,
    ensures
        spec_step(s, reply).0 == s,
        s.phase is Finished ==> spec_step(s, reply).1 == RequestView::Finished,
        s.phase is Failed ==> spec_step(s, reply).1 == RequestView::Failed(s.phase->Failed_0),
{
}

/// The machine whose topmost frame is `frame`, above the frames `below`,
/// and which waits for nothing.
pub open spec fn spec_running(
    functions: Seq<FunctionView>,
    below: Seq<FrameView>,
    frame: FrameView,
) -> StateView {
    StateView { functions, stack: below.push(frame), phase: Phase::Running }
}

/// The machine whose topmost frame is `frame` and which waits for what
/// `phase` says.
pub open spec fn spec_waiting(
    functions: Seq<FunctionView>,
    below: Seq<FrameView>,
    frame: FrameView,
    phase: Phase,
) -> StateView {
    StateView { functions, stack: below.push(frame), phase }
}

/// Whether a machine in the phase takes the reply that nothing was asked
/// or that a line was printed, and goes on.
pub open spec fn spec_ready(phase: Phase) -> bool {
    phase == Phase::Running || phase == Phase::AwaitPrinted
}

/// The tasks that run all nodes but the first lie under the task that
/// runs the first.
pub proof fn lemma_runs_first(nodes: Seq<NodeView>)
    requires
        nodes.len() > 0,
    ensures
        spec_runs(nodes) == spec_runs(nodes.drop_first()).push(TaskView::Run(nodes[0])),
{
    assert(spec_runs(nodes) =~= spec_runs(nodes.drop_first()).push(TaskView::Run(nodes[0])));
}

} // verus!
