//! The interpreter: a machine that runs a program one bounded step at a
//! time.
//!
//! [`evaluate`] sets the machine up from the nodes of a program's top
//! level. Each call of [`State::step`] takes in the driver's reply to the
//! request before, performs one task of the topmost frame, and hands out
//! the next request. `spec_step` defines what a step does; a run is what
//! repeated steps make of the replies that the driver gives.
use vstd::prelude::*;
use crate::ast::{duplicate_all, node_view, nodes_view, Node, NodeView};
use crate::frame::{functions_view, lookup, names_view, perform, spec_conclude, spec_lookup,
    spec_new_frame, spec_perform, spec_with_current, spec_with_tasks, Effect, EffectView, Frame,
    FrameView, Function, FunctionView};
use crate::number::{blanks_end, spec_blanks_end, spec_entered, Number, NumberView};
use crate::protocol::{Phase, Reply, ReplyView, Request, RequestView, RuntimeError};
use crate::task::{pop_task, push_task, Task, TaskView};
use crate::text::{at, spec_at, to_chars};
use crate::value::{Kind, Value, ValueView};

verus! {

/// The machine: the table of declared functions, the call stack (its top
/// is the last frame), and what the machine waits for.
#[derive(Debug, PartialEq)]
pub struct State {
    pub functions: Vec<Function>,
    pub stack: Vec<Frame>,
    pub phase: Phase,
}

pub struct StateView {
    pub functions: Seq<FunctionView>,
    pub stack: Seq<FrameView>,
    pub phase: Phase,
}

/// The values of a stack of frames, one for one.
pub open spec fn frames_view(frames: Seq<Frame>) -> Seq<FrameView> {
    Seq::new(frames.len(), |i: int| frames[i]@)
}

impl View for State {
    type V = StateView;

    open spec fn view(&self) -> StateView {
        StateView {
            functions: functions_view(self.functions@),
            stack: frames_view(self.stack@),
            phase: self.phase,
        }
    }
}

fn push_frame(stack: &mut Vec<Frame>, frame: Frame)
    ensures
        frames_view(final(stack)@) == frames_view(old(stack)@).push(frame@),
{
    stack.push(frame);
    assert(frames_view(stack@) =~= frames_view(old(stack)@).push(frame@));
}

fn pop_frame(stack: &mut Vec<Frame>) -> (r: Option<Frame>)
    ensures
        match r {
            Some(frame) => {
                &&& frames_view(old(stack)@).len() > 0
                &&& frame@ == frames_view(old(stack)@).last()
                &&& frames_view(final(stack)@) == frames_view(old(stack)@).drop_last()
            },
            None => frames_view(old(stack)@).len() == 0 && final(stack)@ == old(stack)@,
        },
{
    let r = stack.pop();
    assert(frames_view(stack@) =~= frames_view(old(stack)@).drop_last() || r is None);
    r
}

/// The machine with no functions and a single frame that has nothing to
/// do.
pub open spec fn spec_new_state() -> StateView {
    StateView { functions: Seq::empty(), stack: seq![spec_new_frame()], phase: Phase::Running }
}

impl State {
    pub fn new() -> (r: State)
        ensures
            r@ == spec_new_state(),
    {
        let mut stack: Vec<Frame> = Vec::new();
        stack.push(Frame::new());
        let r = State { functions: Vec::new(), stack, phase: Phase::Running };
        assert(r@.functions =~= Seq::empty());
        assert(r@.stack =~= seq![spec_new_frame()]);
        r
    }
}

/// The names of a function's parameters, where every one of them is a
/// variable reference.
pub open spec fn spec_parameter_names(parameters: Seq<NodeView>) -> Option<Seq<Seq<char>>> {
    if forall|i: int| 0 <= i < parameters.len() ==> #[trigger] parameters[i] is Variable {
        Some(Seq::new(parameters.len(), |i: int| parameters[i]->Variable_0))
    } else {
        None
    }
}

fn parameter_names(parameters: &Vec<Node>) -> (r: Option<Vec<String>>)
    ensures
        match r {
            Some(names) => spec_parameter_names(nodes_view(parameters@)) == Some(
                names_view(names@),
            ),
            None => spec_parameter_names(nodes_view(parameters@)) is None,
        },
{
    let ghost views = nodes_view(parameters@);
    let mut names: Vec<String> = Vec::new();
    let mut i: usize = 0;
    while i < parameters.len()
        invariant
            i <= parameters.len(),
            views == nodes_view(parameters@),
            names.len() == i,
            forall|k: int| 0 <= k < i ==> #[trigger] views[k] is Variable,
            forall|k: int| 0 <= k < i ==> #[trigger] names@[k]@ == views[k]->Variable_0,
        decreases parameters.len() - i,
    {
        match &parameters[i] {
            Node::Variable(name) => {
                assert(views[i as int] == NodeView::Variable(name@));
                names.push(name.clone());
            },
            _ => {
                assert(!(views[i as int] is Variable));
                return None;
            },
        }
        i += 1;
    }
    proof {
        assert(names_view(names@) =~= Seq::new(views.len(), |i: int| views[i]->Variable_0));
    }
    Some(names)
}

/// The table of functions and the body of the entry point that the nodes
/// of a top level declare. The first node that is out of place decides
/// the error: a second entry point, a second function of one name, a
/// function whose parameters are not names, or any other kind of node.
pub open spec fn spec_table(nodes: Seq<NodeView>) -> Result<
    (Seq<FunctionView>, Option<Seq<NodeView>>),
    RuntimeError,
>
    decreases nodes.len(),
{
    if nodes.len() == 0 {
        Ok((Seq::empty(), None))
    } else {
        match spec_table(nodes.drop_last()) {
            Err(e) => Err(e),
            Ok((functions, entry)) => match nodes.last() {
                NodeView::Main(body) => if entry is Some {
                    Err(RuntimeError::DuplicateEntry)
                } else {
                    Ok((functions, Some(body)))
                },
                NodeView::DeclareFunction(name, parameters, body, void) => if spec_lookup(
                    functions,
                    name,
                ) is Some {
                    Err(RuntimeError::DuplicateFunction)
                } else {
                    match spec_parameter_names(parameters) {
                        None => Err(RuntimeError::Malformed),
                        Some(names) => Ok(
                            (
                                functions.push(
                                    FunctionView { name, parameters: names, body, void },
                                ),
                                entry,
                            ),
                        ),
                    }
                },
                _ => Err(RuntimeError::Misplaced),
            },
        }
    }
}

/// The machine at the start of a run: the stack holds one frame, whose
/// only task is to run the entry point.
pub open spec fn spec_start(functions: Seq<FunctionView>, body: Seq<NodeView>) -> StateView {
    StateView {
        functions,
        stack: seq![
            spec_with_tasks(spec_new_frame(), seq![TaskView::Run(NodeView::Main(body))]),
        ],
        phase: Phase::Running,
    }
}

/// What `evaluate` makes of the nodes of a top level: the machine at the
/// start of the run, or the reason why there is none.
pub open spec fn spec_evaluate(nodes: Seq<NodeView>) -> Result<StateView, RuntimeError> {
    match spec_table(nodes) {
        Err(e) => Err(e),
        Ok((_, None)) => Err(RuntimeError::MissingEntry),
        Ok((functions, Some(body))) => Ok(spec_start(functions, body)),
    }
}

/// The value of a body that may be missing.
pub open spec fn optional_nodes_view(body: Option<Vec<Node>>) -> Option<Seq<NodeView>> {
    match body {
        Some(nodes) => Some(nodes_view(nodes@)),
        None => None,
    }
}

/// Sets the machine up for a program: the function declarations go into
/// the table, and the one entry point becomes the task of the first
/// frame. Nothing of the program has run when this returns.
pub fn evaluate(ast: Vec<Node>) -> (r: Result<State, RuntimeError>)
    ensures
        match r {
            Ok(state) => spec_evaluate(nodes_view(ast@)) == Ok::<StateView, RuntimeError>(state@),
            Err(e) => spec_evaluate(nodes_view(ast@)) == Err::<StateView, RuntimeError>(e),
        },
{
    let ghost nodes = nodes_view(ast@);
    let mut state = State::new();
    let mut entry: Option<Vec<Node>> = None;
    let mut i: usize = 0;
    proof {
        assert(nodes.take(0) =~= Seq::empty());
    }
    while i < ast.len()
        invariant
            i <= ast.len(),
            nodes == nodes_view(ast@),
            spec_table(nodes.take(i as int)) == Ok::<
                (Seq<FunctionView>, Option<Seq<NodeView>>),
                RuntimeError,
            >((functions_view(state.functions@), optional_nodes_view(entry))),
            frames_view(state.stack@) == seq![spec_new_frame()],
            state.phase == Phase::Running,
        decreases ast.len() - i,
    {
        proof {
            assert(nodes.take(i + 1).drop_last() =~= nodes.take(i as int));
            assert(nodes.take(i + 1).last() == nodes[i as int]);
            assert(nodes[i as int] == node_view(ast@[i as int]));
            lemma_table_fails(nodes, i + 1);
        }
        match &ast[i] {
            Node::Main(body) => {
                if entry.is_some() {
                    return Err(RuntimeError::DuplicateEntry);
                }
                entry = Some(duplicate_all(body));
            },
            Node::DeclareFunction(name, parameters, body, void) => {
                if lookup(&state.functions, name).is_some() {
                    return Err(RuntimeError::DuplicateFunction);
                }
                match parameter_names(parameters) {
                    None => {
                        return Err(RuntimeError::Malformed);
                    },
                    Some(names) => {
                        let ghost before = functions_view(state.functions@);
                        let function = Function {
                            name: name.clone(),
                            parameters: names,
                            body: duplicate_all(body),
                            void: *void,
                        };
                        state.functions.push(function);
                        proof {
                            assert(functions_view(state.functions@) =~= before.push(function@));
                        }
                    },
                }
            },
            _ => {
                return Err(RuntimeError::Misplaced);
            },
        }
        i += 1;
    }
    proof {
        assert(nodes.take(i as int) =~= nodes);
    }
    match entry {
        None => Err(RuntimeError::MissingEntry),
        Some(body) => {
            let mut frame = Frame::new();
            proof {
                let entry = TaskView::Run(NodeView::Main(nodes_view(body@)));
                assert(Seq::<TaskView>::empty().push(entry) =~= seq![entry]);
            }
            push_task(&mut frame.tasks, Task::Run(Node::Main(body)));
            let mut stack: Vec<Frame> = Vec::new();
            stack.push(frame);
            state.stack = stack;
            proof {
                assert(frames_view(state.stack@) =~= seq![frame@]);
            }
            Ok(state)
        },
    }
}

/// Once a prefix of the top level is refused, the whole is refused for
/// the same reason.
proof fn lemma_table_fails(nodes: Seq<NodeView>, k: int)
    requires
        0 <= k <= nodes.len(),
    ensures
        spec_table(nodes.take(k)) is Err ==> spec_table(nodes) == spec_table(nodes.take(k)),
    decreases nodes.len() - k,
{
    if k == nodes.len() {
        assert(nodes.take(k) =~= nodes);
    } else {
        lemma_table_fails(nodes, k + 1);
        assert(nodes.take(k + 1).drop_last() =~= nodes.take(k));
    }
}

/// The truth value that a line of input holds: one of the two words
/// with nothing but blanks before and after it.
pub open spec fn spec_entered_truth(line: Seq<char>) -> Option<bool> {
    let start = spec_blanks_end(line, 0);
    if spec_at(line, start, "true"@) && spec_blanks_end(line, start + "true"@.len())
        == line.len() {
        Some(true)
    } else if spec_at(line, start, "false"@) && spec_blanks_end(line, start + "false"@.len())
        == line.len() {
        Some(false)
    } else {
        None
    }
}

pub fn entered_truth(line: &str) -> (r: Option<bool>)
    ensures
        r == spec_entered_truth(line@),
{
    let s = to_chars(line);
    let start = blanks_end(&s, 0);
    if let Some(end) = at(&s, start, "true") {
        if blanks_end(&s, end) == s.len() {
            return Some(true);
        }
    }
    if let Some(end) = at(&s, start, "false") {
        if blanks_end(&s, end) == s.len() {
            return Some(false);
        }
    }
    None
}

/// What a reply means to a machine that waits.
#[derive(Debug, PartialEq, Eq)]
pub enum Received {
    /// The run goes on, with a new current value where one is given.
    Proceed(Option<Value>),
    /// A numeral was read and has to be converted.
    Convert(Number),
    /// The run ends with an error.
    Fail(RuntimeError),
}

pub enum ReceivedView {
    Proceed(Option<ValueView>),
    Convert(NumberView),
    Fail(RuntimeError),
}

impl View for Received {
    type V = ReceivedView;

    open spec fn view(&self) -> ReceivedView {
        match self {
            Received::Proceed(Some(value)) => ReceivedView::Proceed(Some(value@)),
            Received::Proceed(None) => ReceivedView::Proceed(None),
            Received::Convert(number) => ReceivedView::Convert(number@),
            Received::Fail(error) => ReceivedView::Fail(*error),
        }
    }
}

/// What a line of input means to a machine that waits for a value of a
/// kind. Text is taken as it is; a truth value and a number must be what
/// the whole line holds.
pub open spec fn spec_receive_line(kind: Kind, line: Option<Seq<char>>) -> ReceivedView {
    match line {
        None => ReceivedView::Fail(RuntimeError::EndOfInput),
        Some(text) => match kind {
            Kind::Text => ReceivedView::Proceed(Some(ValueView::Text(text))),
            Kind::Boolean => match spec_entered_truth(text) {
                Some(truth) => ReceivedView::Proceed(Some(ValueView::Boolean(truth))),
                None => ReceivedView::Fail(RuntimeError::InvalidInput),
            },
            Kind::Number => match spec_entered(text) {
                Some(number) => ReceivedView::Convert(number),
                None => ReceivedView::Fail(RuntimeError::InvalidInput),
            },
        },
    }
}

/// What a reply means to a machine in a phase. A reply that does not
/// answer the request before it ends the run.
pub open spec fn spec_receive(phase: Phase, reply: ReplyView) -> ReceivedView {
    match (phase, reply) {
        (Phase::Running, ReplyView::Ready) => ReceivedView::Proceed(None),
        (Phase::AwaitPrinted, ReplyView::Ready) => ReceivedView::Proceed(None),
        (Phase::AwaitNumber, ReplyView::Number(bits)) => ReceivedView::Proceed(
            Some(ValueView::Number(bits)),
        ),
        (Phase::AwaitBoolean, ReplyView::Boolean(truth)) => ReceivedView::Proceed(
            Some(ValueView::Boolean(truth)),
        ),
        (Phase::AwaitLine(kind), ReplyView::Line(line)) => spec_receive_line(kind, line),
        _ => ReceivedView::Fail(RuntimeError::UnexpectedReply),
    }
}

pub fn receive(phase: Phase, reply: Reply) -> (r: Received)
    ensures
        r@ == spec_receive(phase, reply@),
{
    match (phase, reply) {
        (Phase::Running, Reply::Ready) => Received::Proceed(None),
        (Phase::AwaitPrinted, Reply::Ready) => Received::Proceed(None),
        (Phase::AwaitNumber, Reply::Number(bits)) => Received::Proceed(Some(Value::Number(bits))),
        (Phase::AwaitBoolean, Reply::Boolean(truth)) => Received::Proceed(
            Some(Value::Boolean(truth)),
        ),
        (Phase::AwaitLine(kind), Reply::Line(line)) => match line {
            None => Received::Fail(RuntimeError::EndOfInput),
            Some(text) => match kind {
                Kind::Text => Received::Proceed(Some(Value::Text(text))),
                Kind::Boolean => match entered_truth(text.as_str()) {
                    Some(truth) => Received::Proceed(Some(Value::Boolean(truth))),
                    None => Received::Fail(RuntimeError::InvalidInput),
                },
                Kind::Number => match Number::parse(text.as_str()) {
                    Some(number) => Received::Convert(number),
                    None => Received::Fail(RuntimeError::InvalidInput),
                },
            },
        },
        _ => Received::Fail(RuntimeError::UnexpectedReply),
    }
}

/// The machine after an effect on its topmost frame, and the request that
/// goes out. `below` holds the frames under the topmost one.
///
/// A frame that is done hands its value to the frame below, whose current
/// value it becomes; where there is no frame below, the program has run to
/// its end. An error ends the run.
pub open spec fn spec_apply(
    functions: Seq<FunctionView>,
    below: Seq<FrameView>,
    effect: EffectView,
) -> (StateView, RequestView) {
    match effect {
        EffectView::Stay(frame, request, phase) => (
            StateView { functions, stack: below.push(frame), phase },
            request,
        ),
        EffectView::Enter(caller, callee) => (
            StateView { functions, stack: below.push(caller).push(callee), phase: Phase::Running },
            RequestView::Continue,
        ),
        EffectView::Leave(value) => if below.len() == 0 {
            (StateView { functions, stack: below, phase: Phase::Finished }, RequestView::Finished)
        } else {
            (
                StateView {
                    functions,
                    stack: below.drop_last().push(FrameView { current: value, ..below.last() }),
                    phase: Phase::Running,
                },
                RequestView::Continue,
            )
        },
        EffectView::Halt(error) => spec_fail(functions, below, error),
    }
}

/// The machine after an error, and the request that reports it.
pub open spec fn spec_fail(
    functions: Seq<FunctionView>,
    stack: Seq<FrameView>,
    error: RuntimeError,
) -> (StateView, RequestView) {
    (StateView { functions, stack, phase: Phase::Failed(error) }, RequestView::Failed(error))
}

/// What the topmost frame does next: it performs its topmost task, or it
/// concludes where no task is left.
pub open spec fn spec_advance(functions: Seq<FunctionView>, frame: FrameView) -> EffectView {
    if frame.tasks.len() == 0 {
        spec_conclude(frame)
    } else {
        spec_perform(
            functions,
            spec_with_tasks(frame, frame.tasks.drop_last()),
            frame.tasks.last(),
        )
    }
}

/// One step of the machine: the machine after the reply and the request
/// that it hands out.
///
/// A machine that has finished or failed stays as it is and says so
/// again. Any other takes the reply in. Where it waited for a line that
/// is to be read as a number, it asks for the numeral's conversion.
/// Otherwise the reply's value, if it has one, becomes the current value
/// of the topmost frame, and the frame does what is next.
pub open spec fn spec_step(s: StateView, reply: ReplyView) -> (StateView, RequestView) {
    match s.phase {
        Phase::Finished => (s, RequestView::Finished),
        Phase::Failed(error) => (s, RequestView::Failed(error)),
        _ => if s.stack.len() == 0 {
            spec_fail(s.functions, s.stack, RuntimeError::Stuck)
        } else {
            let below = s.stack.drop_last();
            let frame = s.stack.last();
            match spec_receive(s.phase, reply) {
                ReceivedView::Fail(error) => spec_fail(s.functions, below, error),
                ReceivedView::Convert(number) => (
                    StateView { phase: Phase::AwaitNumber, ..s },
                    RequestView::Convert(number),
                ),
                ReceivedView::Proceed(None) => spec_apply(
                    s.functions,
                    below,
                    spec_advance(s.functions, frame),
                ),
                ReceivedView::Proceed(Some(value)) => spec_apply(
                    s.functions,
                    below,
                    spec_advance(s.functions, spec_with_current(frame, value)),
                ),
            }
        },
    }
}

impl State {
    fn apply(&mut self, effect: Effect) -> (request: Request)
        ensures
            (final(self)@, request@) == spec_apply(
                old(self)@.functions,
                old(self)@.stack,
                effect@,
            ),
    {
        match effect {
            Effect::Stay(frame, request, phase) => {
                push_frame(&mut self.stack, frame);
                self.phase = phase;
                request
            },
            Effect::Enter(caller, callee) => {
                push_frame(&mut self.stack, caller);
                push_frame(&mut self.stack, callee);
                self.phase = Phase::Running;
                Request::Continue
            },
            Effect::Leave(value) => match pop_frame(&mut self.stack) {
                None => {
                    self.phase = Phase::Finished;
                    Request::Finished
                },
                Some(caller) => {
                    let mut caller = caller;
                    caller.current = value;
                    push_frame(&mut self.stack, caller);
                    self.phase = Phase::Running;
                    Request::Continue
                },
            },
            Effect::Halt(error) => {
                self.phase = Phase::Failed(error);
                Request::Failed(error)
            },
        }
    }

    /// Takes in the reply to the request before and runs the machine one
    /// step further. The first reply of a run is [`Reply::Ready`].
    pub fn step(&mut self, reply: Reply) -> (request: Request)
        ensures
            (final(self)@, request@) == spec_step(old(self)@, reply@),
    {
        match self.phase {
            Phase::Finished => {
                return Request::Finished;
            },
            Phase::Failed(error) => {
                return Request::Failed(error);
            },
            _ => {},
        }
        let ghost before = self@;
        let mut frame = match pop_frame(&mut self.stack) {
            None => {
                self.phase = Phase::Failed(RuntimeError::Stuck);
                return Request::Failed(RuntimeError::Stuck);
            },
            Some(frame) => frame,
        };
        match receive(self.phase, reply) {
            Received::Fail(error) => {
                self.phase = Phase::Failed(error);
                Request::Failed(error)
            },
            Received::Convert(number) => {
                push_frame(&mut self.stack, frame);
                self.phase = Phase::AwaitNumber;
                proof {
                    assert(self@.stack =~= before.stack);
                }
                Request::Convert(number)
            },
            Received::Proceed(update) => {
                match update {
                    Some(value) => {
                        frame.current = Some(value);
                    },
                    None => {},
                }
                let effect = match pop_task(&mut frame.tasks) {
                    None => {
                        if frame.void {
                            Effect::Leave(None)
                        } else {
                            Effect::Halt(RuntimeError::MissingReturn)
                        }
                    },
                    Some(task) => perform(&self.functions, frame, task),
                };
                self.apply(effect)
            },
        }
    }
}

} // verus!
