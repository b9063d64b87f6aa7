//! Frames, and what performing one task does to a frame.
use vstd::prelude::*;
use crate::ast::{duplicate_all, node_view, nodes_view, BinaryOperation, Node, NodeView};
use crate::number::{spec_natural, Number};
use crate::protocol::{Output, OutputView, Phase, Request, RequestView, RuntimeError};
use crate::scope::Scope;
use crate::task::{push_task, schedule, schedule_arguments, schedule_owned, spec_gathers,
    spec_runs, tasks_view, Task, TaskView};
use crate::value::{count, nonzero, spec_count, spec_kind, spec_nonzero, values_view, Kind, Value,
    ValueView};

verus! {

/// A declared function.
#[derive(Debug, PartialEq)]
pub struct Function {
    pub name: String,
    pub parameters: Vec<String>,
    pub body: Vec<Node>,
    /// Whether the function returns nothing.
    pub void: bool,
}

pub struct FunctionView {
    pub name: Seq<char>,
    pub parameters: Seq<Seq<char>>,
    pub body: Seq<NodeView>,
    pub void: bool,
}

/// The values of a sequence of names, one for one.
pub open spec fn names_view(names: Seq<String>) -> Seq<Seq<char>> {
    Seq::new(names.len(), |i: int| names[i]@)
}

impl View for Function {
    type V = FunctionView;

    open spec fn view(&self) -> FunctionView {
        FunctionView {
            name: self.name@,
            parameters: names_view(self.parameters@),
            body: nodes_view(self.body@),
            void: self.void,
        }
    }
}

/// The values of a table of functions, one for one.
pub open spec fn functions_view(functions: Seq<Function>) -> Seq<FunctionView> {
    Seq::new(functions.len(), |i: int| functions[i]@)
}

/// The first function of the table that has the name.
pub open spec fn spec_lookup(functions: Seq<FunctionView>, name: Seq<char>) -> Option<
    FunctionView,
>
    decreases functions.len(),
{
    if functions.len() == 0 {
        None
    } else if functions[0].name == name {
        Some(functions[0])
    } else {
        spec_lookup(functions.drop_first(), name)
    }
}

proof fn lemma_lookup_skip(functions: Seq<FunctionView>, name: Seq<char>, k: int)
    requires
        0 <= k <= functions.len(),
        forall|i: int| 0 <= i < k ==> functions[i].name != name,
    ensures
        spec_lookup(functions, name) == spec_lookup(functions.skip(k), name),
    decreases k,
{
    if k == 0 {
        assert(functions.skip(0) == functions);
    } else {
        let rest = functions.drop_first();
        assert forall|i: int| 0 <= i < k - 1 implies rest[i].name != name by {
            assert(rest[i] == functions[i + 1]);
        }
        lemma_lookup_skip(rest, name, k - 1);
        assert(rest.skip(k - 1) == functions.skip(k));
    }
}

/// Where the first function with the name stands in the table.
pub fn lookup(functions: &Vec<Function>, name: &String) -> (r: Option<usize>)
    ensures
        match r {
            Some(k) => k < functions.len() && spec_lookup(functions_view(functions@), name@)
                == Some(functions@[k as int]@),
            None => spec_lookup(functions_view(functions@), name@) is None,
        },
{
    let ghost table = functions_view(functions@);
    let mut i: usize = 0;
    while i < functions.len()
        invariant
            i <= functions.len(),
            table == functions_view(functions@),
            forall|k: int| 0 <= k < i ==> table[k].name != name@,
        decreases functions.len() - i,
    {
        if functions[i].name == *name {
            proof {
                lemma_lookup_skip(table, name@, i as int);
                assert(table.skip(i as int)[0] == table[i as int]);
            }
            return Some(i);
        }
        i += 1;
    }
    proof {
        lemma_lookup_skip(table, name@, i as int);
    }
    None
}

/// One scope of the call stack: the variables, the current value, the
/// values gathered as arguments of the next call, the tasks still to
/// perform, and whether the frame belongs to a function that returns
/// nothing (as the frame of the entry point does).
#[derive(Debug, PartialEq)]
pub struct Frame {
    pub variables: Scope,
    pub current: Option<Value>,
    pub gathered: Vec<Value>,
    pub tasks: Vec<Task>,
    pub void: bool,
}

pub struct FrameView {
    pub variables: Map<Seq<char>, ValueView>,
    pub current: Option<ValueView>,
    pub gathered: Seq<ValueView>,
    pub tasks: Seq<TaskView>,
    pub void: bool,
}

/// The value of a value that may be missing.
pub open spec fn optional_view(value: Option<Value>) -> Option<ValueView> {
    match value {
        Some(v) => Some(v@),
        None => None,
    }
}

impl View for Frame {
    type V = FrameView;

    open spec fn view(&self) -> FrameView {
        FrameView {
            variables: self.variables@,
            current: optional_view(self.current),
            gathered: values_view(self.gathered@),
            tasks: tasks_view(self.tasks@),
            void: self.void,
        }
    }
}

/// The frame with no variables, no current value and nothing to do.
pub open spec fn spec_new_frame() -> FrameView {
    FrameView {
        variables: Map::empty(),
        current: None,
        gathered: Seq::empty(),
        tasks: Seq::empty(),
        void: true,
    }
}

impl Frame {
    pub fn new() -> (r: Frame)
        ensures
            r@ == spec_new_frame(),
    {
        let r = Frame {
            variables: Scope::new(),
            current: None,
            gathered: Vec::new(),
            tasks: Vec::new(),
            void: true,
        };
        assert(r@.gathered =~= Seq::empty());
        assert(r@.tasks =~= Seq::empty());
        r
    }
}

/// What performing a task leads to.
#[derive(Debug, PartialEq)]
pub enum Effect {
    /// The frame goes on as given; the request goes out and the
    /// interpreter waits for what the phase says.
    Stay(Frame, Request, Phase),
    /// The first frame calls a function, which runs in the second.
    Enter(Frame, Frame),
    /// The frame is done and hands the value, if any, to its caller.
    Leave(Option<Value>),
    /// The run ends with an error.
    Halt(RuntimeError),
}

pub enum EffectView {
    Stay(FrameView, RequestView, Phase),
    Enter(FrameView, FrameView),
    Leave(Option<ValueView>),
    Halt(RuntimeError),
}

impl View for Effect {
    type V = EffectView;

    open spec fn view(&self) -> EffectView {
        match self {
            Effect::Stay(frame, request, phase) => EffectView::Stay(frame@, request@, *phase),
            Effect::Enter(caller, callee) => EffectView::Enter(caller@, callee@),
            Effect::Leave(value) => EffectView::Leave(optional_view(*value)),
            Effect::Halt(error) => EffectView::Halt(*error),
        }
    }
}

/// The frame goes on, and nothing is asked of the driver.
pub open spec fn spec_go(frame: FrameView) -> EffectView {
    EffectView::Stay(frame, RequestView::Continue, Phase::Running)
}

fn go(frame: Frame) -> (r: Effect)
    ensures
        r@ == spec_go(frame@),
{
    Effect::Stay(frame, Request::Continue, Phase::Running)
}

/// What an operation on two values needs or gives.
#[derive(Debug, PartialEq, Eq)]
pub enum Answer {
    /// The driver has to compute the result.
    Ask(Request),
    /// The result.
    Know(Value),
}

pub enum AnswerView {
    Ask(RequestView),
    Know(ValueView),
}

impl View for Answer {
    type V = AnswerView;

    open spec fn view(&self) -> AnswerView {
        match self {
            Answer::Ask(request) => AnswerView::Ask(request@),
            Answer::Know(value) => AnswerView::Know(value@),
        }
    }
}

/// An arithmetic operation takes two numbers and is computed by the
/// driver; on anything else it is a type error.
pub open spec fn spec_math_operations(
    operation: BinaryOperation,
    left: ValueView,
    right: ValueView,
) -> Result<RequestView, RuntimeError> {
    match (left, right) {
        (ValueView::Number(x), ValueView::Number(y)) => Ok(
            RequestView::Arithmetic(operation, x, y),
        ),
        _ => Err(RuntimeError::TypeMismatch),
    }
}

pub fn math_operations(operation: BinaryOperation, left: &Value, right: &Value) -> (r: Result<
    Request,
    RuntimeError,
>)
    ensures
        match r {
            Ok(request) => spec_math_operations(operation, left@, right@) == Ok::<
                RequestView,
                RuntimeError,
            >(request@),
            Err(e) => spec_math_operations(operation, left@, right@) == Err::<
                RequestView,
                RuntimeError,
            >(e),
        },
{
    match (left, right) {
        (Value::Number(x), Value::Number(y)) => Ok(Request::Arithmetic(operation, *x, *y)),
        _ => Err(RuntimeError::TypeMismatch),
    }
}

/// A comparison takes two numbers and is computed by the driver; on
/// anything else it is a type error.
pub open spec fn spec_comparison(
    operation: BinaryOperation,
    left: ValueView,
    right: ValueView,
) -> Result<RequestView, RuntimeError> {
    match (left, right) {
        (ValueView::Number(x), ValueView::Number(y)) => Ok(RequestView::Compare(operation, x, y)),
        _ => Err(RuntimeError::TypeMismatch),
    }
}

/// A logical operation takes two truth values; on anything else it is a
/// type error.
pub open spec fn spec_logic(
    operation: BinaryOperation,
    left: ValueView,
    right: ValueView,
) -> Result<ValueView, RuntimeError> {
    match (left, right) {
        (ValueView::Boolean(x), ValueView::Boolean(y)) => Ok(
            ValueView::Boolean(
                if operation == BinaryOperation::Or {
                    x || y
                } else {
                    x && y
                },
            ),
        ),
        _ => Err(RuntimeError::TypeMismatch),
    }
}

/// What a binary operation on the running value `left` and the operand
/// `right` needs or gives.
pub open spec fn spec_evaluate_binary(
    operation: BinaryOperation,
    left: ValueView,
    right: ValueView,
) -> Result<AnswerView, RuntimeError> {
    match operation {
        BinaryOperation::Equal | BinaryOperation::GreaterThan | BinaryOperation::LessThan => {
            match spec_comparison(operation, left, right) {
                Ok(request) => Ok(AnswerView::Ask(request)),
                Err(e) => Err(e),
            }
        },
        BinaryOperation::Or | BinaryOperation::And => match spec_logic(operation, left, right) {
            Ok(value) => Ok(AnswerView::Know(value)),
            Err(e) => Err(e),
        },
        _ => match spec_math_operations(operation, left, right) {
            Ok(request) => Ok(AnswerView::Ask(request)),
            Err(e) => Err(e),
        },
    }
}

pub fn evaluate_binary(operation: BinaryOperation, left: &Value, right: &Value) -> (r: Result<
    Answer,
    RuntimeError,
>)
    ensures
        match r {
            Ok(answer) => spec_evaluate_binary(operation, left@, right@) == Ok::<
                AnswerView,
                RuntimeError,
            >(answer@),
            Err(e) => spec_evaluate_binary(operation, left@, right@) == Err::<
                AnswerView,
                RuntimeError,
            >(e),
        },
{
    match operation {
        BinaryOperation::Equal | BinaryOperation::GreaterThan | BinaryOperation::LessThan => {
            match (left, right) {
                (Value::Number(x), Value::Number(y)) => Ok(
                    Answer::Ask(Request::Compare(operation, *x, *y)),
                ),
                _ => Err(RuntimeError::TypeMismatch),
            }
        },
        BinaryOperation::Or => match (left, right) {
            (Value::Boolean(x), Value::Boolean(y)) => Ok(Answer::Know(Value::Boolean(*x || *y))),
            _ => Err(RuntimeError::TypeMismatch),
        },
        BinaryOperation::And => match (left, right) {
            (Value::Boolean(x), Value::Boolean(y)) => Ok(Answer::Know(Value::Boolean(*x && *y))),
            _ => Err(RuntimeError::TypeMismatch),
        },
        _ => match math_operations(operation, left, right) {
            Ok(request) => Ok(Answer::Ask(request)),
            Err(e) => Err(e),
        },
    }
}

/// What a print statement hands out for a value: a number as it is, text
/// as it is, and a truth value as one of two words.
pub open spec fn spec_output(value: ValueView) -> OutputView {
    match value {
        ValueView::Number(bits) => OutputView::Number(bits),
        ValueView::Text(text) => OutputView::Text(text),
        ValueView::Boolean(truth) => OutputView::Text(
            if truth {
                "true"@
            } else {
                "false"@
            },
        ),
    }
}

pub fn output(value: &Value) -> (r: Output)
    ensures
        r@ == spec_output(value@),
{
    match value {
        Value::Number(bits) => Output::Number(*bits),
        Value::Text(text) => Output::Text(text.clone()),
        Value::Boolean(truth) => Output::Text(
            if *truth {
                "true".to_owned()
            } else {
                "false".to_owned()
            },
        ),
    }
}

/// The frame with other tasks.
pub open spec fn spec_with_tasks(frame: FrameView, tasks: Seq<TaskView>) -> FrameView {
    FrameView { tasks, ..frame }
}

/// The frame with another current value.
pub open spec fn spec_with_current(frame: FrameView, value: ValueView) -> FrameView {
    FrameView { current: Some(value), ..frame }
}

/// A typed read into `target`, which must name a variable that is bound
/// to a value of the kind: a line is asked for, and the task that binds
/// the variable to what was read waits on the stack.
pub open spec fn spec_read_into(frame: FrameView, kind: Kind, target: NodeView) -> EffectView {
    match target {
        NodeView::Variable(name) => if !frame.variables.contains_key(name) {
            EffectView::Halt(RuntimeError::UndeclaredVariable)
        } else if spec_kind(frame.variables[name]) != kind {
            EffectView::Halt(RuntimeError::TypeMismatch)
        } else {
            EffectView::Stay(
                spec_with_tasks(frame, frame.tasks.push(TaskView::Bind(name))),
                RequestView::Read,
                Phase::AwaitLine(kind),
            )
        },
        _ => EffectView::Halt(RuntimeError::Malformed),
    }
}

fn read_into(frame: Frame, kind: Kind, target: Node) -> (r: Effect)
    ensures
        r@ == spec_read_into(frame@, kind, target@),
{
    let mut frame = frame;
    match target {
        Node::Variable(name) => match frame.variables.get(&name) {
            None => Effect::Halt(RuntimeError::UndeclaredVariable),
            Some(bound) => {
                if bound.kind() != kind {
                    Effect::Halt(RuntimeError::TypeMismatch)
                } else {
                    push_task(&mut frame.tasks, Task::Bind(name));
                    Effect::Stay(frame, Request::Read, Phase::AwaitLine(kind))
                }
            },
        },
        _ => Effect::Halt(RuntimeError::Malformed),
    }
}

/// A declaration: the initial value is evaluated, and then the variable
/// is bound to it, provided that it is of the declared kind.
pub open spec fn spec_declare(
    frame: FrameView,
    kind: Kind,
    name: Seq<char>,
    initial: NodeView,
) -> EffectView {
    spec_go(
        spec_with_tasks(
            frame,
            frame.tasks.push(TaskView::Define(kind, name)).push(TaskView::Run(initial)),
        ),
    )
}

fn declare(frame: Frame, kind: Kind, name: String, initial: Node) -> (r: Effect)
    ensures
        r@ == spec_declare(frame@, kind, name@, initial@),
{
    let mut frame = frame;
    push_task(&mut frame.tasks, Task::Define(kind, name));
    push_task(&mut frame.tasks, Task::Run(initial));
    go(frame)
}

/// First `then`, which works on the current value, after `first`, which
/// gives it.
pub open spec fn spec_after(frame: FrameView, then: TaskView, first: NodeView) -> EffectView {
    spec_go(spec_with_tasks(frame, frame.tasks.push(then).push(TaskView::Run(first))))
}

fn after(frame: Frame, then: Task, first: Node) -> (r: Effect)
    ensures
        r@ == spec_after(frame@, then@, first@),
{
    let mut frame = frame;
    push_task(&mut frame.tasks, then);
    push_task(&mut frame.tasks, Task::Run(first));
    go(frame)
}

/// What running a node in a frame leads to.
///
/// A literal or a variable becomes the current value (a numeric literal
/// by way of the driver, which converts it). A statement puts the tasks
/// that it is made of on the stack: an assignment, for one, the task that
/// binds the target, below the tasks of its operations in order, below
/// the task of its first value.
pub open spec fn spec_evaluate_node(frame: FrameView, node: NodeView) -> EffectView {
    match node {
        NodeView::AssignVariable(name, first, operations) => spec_go(
            spec_with_tasks(
                frame,
                (frame.tasks.push(TaskView::Bind(name)) + spec_runs(operations)).push(
                    TaskView::Run(*first),
                ),
            ),
        ),
        NodeView::Binary(operation, operand) => match frame.current {
            Some(left) => spec_after(frame, TaskView::Operate(operation, left), *operand),
            None => EffectView::Halt(RuntimeError::MissingValue),
        },
        NodeView::Boolean(truth) => spec_go(spec_with_current(frame, ValueView::Boolean(truth))),
        NodeView::CallFunction(name, arguments) => spec_go(
            spec_with_tasks(
                frame,
                frame.tasks.push(TaskView::Invoke(name, arguments.len() as usize)) + spec_gathers(
                    arguments,
                ),
            ),
        ),
        NodeView::DeclareBoolean(name, initial) => spec_declare(
            frame,
            Kind::Boolean,
            name,
            *initial,
        ),
        NodeView::DeclareFloat(name, initial) => spec_declare(frame, Kind::Number, name, *initial),
        NodeView::DeclareFunction(_, _, _, _) => EffectView::Halt(RuntimeError::Malformed),
        NodeView::DeclareString(name, initial) => spec_declare(frame, Kind::Text, name, *initial),
        NodeView::Float(number) => EffectView::Stay(
            frame,
            RequestView::Convert(number),
            Phase::AwaitNumber,
        ),
        NodeView::For(count, variable, body) => match *variable {
            NodeView::Variable(name) => spec_after(frame, TaskView::Count(name, body), *count),
            _ => EffectView::Halt(RuntimeError::Malformed),
        },
        NodeView::If(condition, accepted, rejected) => spec_after(
            frame,
            TaskView::Branch(accepted, rejected),
            *condition,
        ),
        NodeView::Main(body) => spec_go(spec_with_tasks(frame, frame.tasks + spec_runs(body))),
        NodeView::Noop => spec_go(frame),
        NodeView::Print(value) => spec_after(frame, TaskView::Emit, *value),
        NodeView::ReadBoolean(target) => spec_read_into(frame, Kind::Boolean, *target),
        NodeView::ReadFloat(target) => spec_read_into(frame, Kind::Number, *target),
        NodeView::ReadString(target) => spec_read_into(frame, Kind::Text, *target),
        NodeView::Return(value) => spec_after(frame, TaskView::Leave, *value),
        NodeView::String(text) => spec_go(spec_with_current(frame, ValueView::Text(text))),
        NodeView::Unary(_) => match frame.current {
            Some(ValueView::Boolean(truth)) => spec_go(
                spec_with_current(frame, ValueView::Boolean(!truth)),
            ),
            Some(_) => EffectView::Halt(RuntimeError::TypeMismatch),
            None => EffectView::Halt(RuntimeError::MissingValue),
        },
        NodeView::Variable(name) => if frame.variables.contains_key(name) {
            spec_go(spec_with_current(frame, frame.variables[name]))
        } else {
            EffectView::Halt(RuntimeError::UndeclaredVariable)
        },
        NodeView::While(condition, body) => spec_after(
            frame,
            TaskView::Loop(*condition, body),
            *condition,
        ),
    }
}

/// Runs a node in a frame.
pub fn evaluate_node(frame: Frame, node: Node) -> (r: Effect)
    ensures
        r@ == spec_evaluate_node(frame@, node@),
{
    let mut frame = frame;
    match node {
        Node::AssignVariable(name, first, operations) => {
            push_task(&mut frame.tasks, Task::Bind(name));
            schedule_owned(&mut frame.tasks, operations);
            push_task(&mut frame.tasks, Task::Run(*first));
            go(frame)
        },
        Node::Binary(operation, operand) => match &frame.current {
            Some(left) => {
                let then = Task::Operate(operation, left.duplicate());
                after(frame, then, *operand)
            },
            None => Effect::Halt(RuntimeError::MissingValue),
        },
        Node::Boolean(truth) => {
            frame.current = Some(Value::Boolean(truth));
            go(frame)
        },
        Node::CallFunction(name, arguments) => {
            push_task(&mut frame.tasks, Task::Invoke(name, arguments.len()));
            schedule_arguments(&mut frame.tasks, &arguments);
            go(frame)
        },
        Node::DeclareBoolean(name, initial) => declare(frame, Kind::Boolean, name, *initial),
        Node::DeclareFloat(name, initial) => declare(frame, Kind::Number, name, *initial),
        Node::DeclareFunction(_, _, _, _) => Effect::Halt(RuntimeError::Malformed),
        Node::DeclareString(name, initial) => declare(frame, Kind::Text, name, *initial),
        Node::Float(number) => Effect::Stay(frame, Request::Convert(number), Phase::AwaitNumber),
        Node::For(count, variable, body) => {
            let target: Node = *variable;
            proof {
                assert(node_view(target) is Variable == (target is Variable));
            }
            match target {
                Node::Variable(name) => after(frame, Task::Count(name, body), *count),
                _ => Effect::Halt(RuntimeError::Malformed),
            }
        },
        Node::If(condition, accepted, rejected) => after(
            frame,
            Task::Branch(accepted, rejected),
            *condition,
        ),
        Node::Main(body) => {
            schedule_owned(&mut frame.tasks, body);
            go(frame)
        },
        Node::Noop => go(frame),
        Node::Print(value) => after(frame, Task::Emit, *value),
        Node::ReadBoolean(target) => read_into(frame, Kind::Boolean, *target),
        Node::ReadFloat(target) => read_into(frame, Kind::Number, *target),
        Node::ReadString(target) => read_into(frame, Kind::Text, *target),
        Node::Return(value) => after(frame, Task::Leave, *value),
        Node::String(text) => {
            frame.current = Some(Value::Text(text));
            go(frame)
        },
        Node::Unary(_) => match &frame.current {
            Some(Value::Boolean(truth)) => {
                frame.current = Some(Value::Boolean(!*truth));
                go(frame)
            },
            Some(_) => Effect::Halt(RuntimeError::TypeMismatch),
            None => Effect::Halt(RuntimeError::MissingValue),
        },
        Node::Variable(name) => match frame.variables.get(&name) {
            Some(bound) => {
                frame.current = Some(bound);
                go(frame)
            },
            None => Effect::Halt(RuntimeError::UndeclaredVariable),
        },
        Node::While(condition, body) => {
            let again = condition.duplicate();
            after(frame, Task::Loop(*condition, body), again)
        },
    }
}

/// The variables of a call: each parameter bound to the argument at its
/// place, a later parameter of the same name over an earlier one.
pub open spec fn spec_parameters_map(names: Seq<Seq<char>>, values: Seq<ValueView>) -> Map<
    Seq<char>,
    ValueView,
>
    decreases names.len(),
{
    if names.len() == 0 || values.len() == 0 {
        Map::empty()
    } else {
        spec_parameters_map(names.drop_last(), values.drop_last()).insert(
            names.last(),
            values.last(),
        )
    }
}

/// The frame in which a function runs on the given arguments.
pub open spec fn spec_callee(function: FunctionView, arguments: Seq<ValueView>) -> FrameView {
    FrameView {
        variables: spec_parameters_map(function.parameters, arguments),
        current: None,
        gathered: Seq::empty(),
        tasks: spec_runs(function.body),
        void: function.void,
    }
}

fn callee(function: &Function, arguments: &Vec<Value>) -> (r: Frame)
    requires
        arguments.len() == function.parameters.len(),
    ensures
        r@ == spec_callee(function@, values_view(arguments@)),
{
    let mut r = Frame::new();
    r.void = function.void;
    let ghost names = names_view(function.parameters@);
    let ghost values = values_view(arguments@);
    let mut i: usize = 0;
    proof {
        assert(tasks_view(r.tasks@).len() == r.tasks@.len());
        assert(values_view(r.gathered@).len() == r.gathered@.len());
    }
    while i < arguments.len()
        invariant
            i <= arguments.len() == function.parameters.len(),
            names == names_view(function.parameters@),
            values == values_view(arguments@),
            r.variables@ == spec_parameters_map(names.take(i as int), values.take(i as int)),
            r.current is None,
            r.gathered@.len() == 0,
            r.tasks@.len() == 0,
            r.void == function.void,
        decreases arguments.len() - i,
    {
        r.variables.set(function.parameters[i].clone(), arguments[i].duplicate());
        proof {
            assert(names.take(i + 1).drop_last() == names.take(i as int));
            assert(values.take(i + 1).drop_last() == values.take(i as int));
        }
        i += 1;
    }
    proof {
        assert(names.take(i as int) == names);
        assert(values.take(i as int) == values);
        assert(tasks_view(r.tasks@) =~= Seq::empty());
    }
    schedule(&mut r.tasks, &function.body);
    proof {
        assert(r@.tasks =~= spec_runs(function@.body));
        assert(r@.gathered =~= Seq::empty());
    }
    r
}

/// A call of the function `name` with the last `given` of the gathered
/// values as its arguments.
pub open spec fn spec_invoke(
    functions: Seq<FunctionView>,
    frame: FrameView,
    name: Seq<char>,
    given: usize,
) -> EffectView {
    match spec_lookup(functions, name) {
        None => EffectView::Halt(RuntimeError::UndeclaredFunction),
        Some(function) => if function.parameters.len() != given {
            EffectView::Halt(RuntimeError::ArityMismatch)
        } else if frame.gathered.len() < given {
            EffectView::Halt(RuntimeError::Malformed)
        } else {
            let kept = frame.gathered.len() - given;
            EffectView::Enter(
                FrameView { gathered: frame.gathered.take(kept), ..frame },
                spec_callee(function, frame.gathered.skip(kept)),
            )
        },
    }
}

fn invoke(functions: &Vec<Function>, frame: Frame, name: String, given: usize) -> (r: Effect)
    ensures
        r@ == spec_invoke(functions_view(functions@), frame@, name@, given),
{
    let mut frame = frame;
    match lookup(functions, &name) {
        None => Effect::Halt(RuntimeError::UndeclaredFunction),
        Some(k) => {
            let function = &functions[k];
            if function.parameters.len() != given {
                Effect::Halt(RuntimeError::ArityMismatch)
            } else if frame.gathered.len() < given {
                Effect::Halt(RuntimeError::Malformed)
            } else {
                let ghost before = frame@;
                let kept = frame.gathered.len() - given;
                let arguments = frame.gathered.split_off(kept);
                proof {
                    assert(values_view(arguments@) =~= before.gathered.skip(kept as int));
                    assert(values_view(frame.gathered@) =~= before.gathered.take(kept as int));
                }
                let entered = callee(function, &arguments);
                Effect::Enter(frame, entered)
            }
        },
    }
}

/// Whether a value holds, as the condition of a loop: a truth value as it
/// is, a number where it is not zero. Text is no condition.
pub open spec fn spec_holds(value: ValueView) -> Option<bool> {
    match value {
        ValueView::Boolean(truth) => Some(truth),
        ValueView::Number(bits) => Some(spec_nonzero(bits)),
        ValueView::Text(_) => None,
    }
}

pub fn holds(value: &Value) -> (r: Option<bool>)
    ensures
        r == spec_holds(value@),
{
    match value {
        Value::Boolean(truth) => Some(*truth),
        Value::Number(bits) => Some(nonzero(*bits)),
        Value::Text(_) => None,
    }
}

/// What performing a task in a frame leads to, the task already taken off
/// the frame's stack. `functions` is the table of declared functions.
pub open spec fn spec_perform(
    functions: Seq<FunctionView>,
    frame: FrameView,
    task: TaskView,
) -> EffectView {
    match task {
        TaskView::Run(node) => spec_evaluate_node(frame, node),
        TaskView::Invoke(name, given) => spec_invoke(functions, frame, name, given),
        TaskView::Iterate(name, body, next, rounds) => spec_iterate(
            frame,
            name,
            body,
            next,
            rounds,
        ),
        _ => match frame.current {
            None => EffectView::Halt(RuntimeError::MissingValue),
            Some(value) => spec_consume(frame, task, value),
        },
    }
}

/// One round of a counted loop, or its end: while rounds are left, the
/// index of the next round is converted and bound to the loop variable,
/// the body runs, and the loop goes on with the round after.
pub open spec fn spec_iterate(
    frame: FrameView,
    name: Seq<char>,
    body: Seq<NodeView>,
    next: u128,
    rounds: u128,
) -> EffectView {
    if next < rounds {
        EffectView::Stay(
            spec_with_tasks(
                frame,
                (frame.tasks.push(TaskView::Iterate(name, body, (next + 1) as u128, rounds))
                    + spec_runs(body)).push(TaskView::Bind(name)),
            ),
            RequestView::Convert(spec_natural(next as nat)),
            Phase::AwaitNumber,
        )
    } else {
        spec_go(frame)
    }
}

fn iterate(frame: Frame, name: String, body: Vec<Node>, next: u128, rounds: u128) -> (r: Effect)
    ensures
        r@ == spec_iterate(frame@, name@, nodes_view(body@), next, rounds),
{
    let mut frame = frame;
    if next < rounds {
        let target = name.clone();
        let round = duplicate_all(&body);
        push_task(&mut frame.tasks, Task::Iterate(name, body, next + 1, rounds));
        schedule_owned(&mut frame.tasks, round);
        push_task(&mut frame.tasks, Task::Bind(target));
        Effect::Stay(frame, Request::Convert(Number::from_index(next)), Phase::AwaitNumber)
    } else {
        go(frame)
    }
}

/// What performing a task that works on the current value leads to.
pub open spec fn spec_consume(frame: FrameView, task: TaskView, value: ValueView) -> EffectView {
    match task {
        TaskView::Operate(operation, left) => match spec_evaluate_binary(operation, left, value) {
            Err(e) => EffectView::Halt(e),
            Ok(AnswerView::Know(result)) => spec_go(spec_with_current(frame, result)),
            Ok(AnswerView::Ask(request)) => EffectView::Stay(
                frame,
                request,
                if request is Compare {
                    Phase::AwaitBoolean
                } else {
                    Phase::AwaitNumber
                },
            ),
        },
        TaskView::Bind(name) => spec_go(
            FrameView { variables: frame.variables.insert(name, value), ..frame },
        ),
        TaskView::Define(kind, name) => if spec_kind(value) == kind {
            spec_go(FrameView { variables: frame.variables.insert(name, value), ..frame })
        } else {
            EffectView::Halt(RuntimeError::TypeMismatch)
        },
        TaskView::Branch(accepted, rejected) => match value {
            ValueView::Boolean(truth) => spec_go(
                spec_with_tasks(
                    frame,
                    frame.tasks + spec_runs(
                        if truth {
                            accepted
                        } else {
                            rejected
                        },
                    ),
                ),
            ),
            _ => EffectView::Halt(RuntimeError::TypeMismatch),
        },
        TaskView::Loop(condition, body) => match spec_holds(value) {
            None => EffectView::Halt(RuntimeError::TypeMismatch),
            Some(false) => spec_go(frame),
            Some(true) => spec_go(
                spec_with_tasks(
                    frame,
                    frame.tasks.push(TaskView::Loop(condition, body)).push(
                        TaskView::Run(condition),
                    ) + spec_runs(body),
                ),
            ),
        },
        TaskView::Count(name, body) => match value {
            ValueView::Number(bits) => match spec_count(bits) {
                Some(rounds) => spec_go(
                    spec_with_tasks(
                        frame,
                        frame.tasks.push(TaskView::Iterate(name, body, 0, rounds as u128)),
                    ),
                ),
                None => EffectView::Halt(RuntimeError::InvalidCount),
            },
            _ => EffectView::Halt(RuntimeError::TypeMismatch),
        },
        TaskView::Emit => EffectView::Stay(
            frame,
            RequestView::Print(spec_output(value)),
            Phase::AwaitPrinted,
        ),
        TaskView::Leave => if frame.void {
            EffectView::Halt(RuntimeError::UnexpectedReturn)
        } else {
            EffectView::Leave(Some(value))
        },
        TaskView::Gather => spec_go(FrameView { gathered: frame.gathered.push(value), ..frame }),
        _ => EffectView::Halt(RuntimeError::Malformed),
    }
}

fn consume(frame: Frame, task: Task, value: Value) -> (r: Effect)
    requires
        frame@.current == Some(value@),
    ensures
        r@ == spec_consume(frame@, task@, value@),
{
    let mut frame = frame;
    match task {
        Task::Operate(operation, left) => match evaluate_binary(operation, &left, &value) {
            Err(e) => Effect::Halt(e),
            Ok(Answer::Know(result)) => {
                frame.current = Some(result);
                go(frame)
            },
            Ok(Answer::Ask(request)) => {
                let phase = match &request {
                    Request::Compare(_, _, _) => Phase::AwaitBoolean,
                    _ => Phase::AwaitNumber,
                };
                Effect::Stay(frame, request, phase)
            },
        },
        Task::Bind(name) => {
            frame.variables.set(name, value);
            go(frame)
        },
        Task::Define(kind, name) => {
            if value.kind() == kind {
                frame.variables.set(name, value);
                go(frame)
            } else {
                Effect::Halt(RuntimeError::TypeMismatch)
            }
        },
        Task::Branch(accepted, rejected) => match value {
            Value::Boolean(truth) => {
                if truth {
                    schedule_owned(&mut frame.tasks, accepted);
                } else {
                    schedule_owned(&mut frame.tasks, rejected);
                }
                go(frame)
            },
            _ => Effect::Halt(RuntimeError::TypeMismatch),
        },
        Task::Loop(condition, body) => match holds(&value) {
            None => Effect::Halt(RuntimeError::TypeMismatch),
            Some(false) => go(frame),
            Some(true) => {
                let again = condition.duplicate();
                let round = duplicate_all(&body);
                push_task(&mut frame.tasks, Task::Loop(condition, body));
                push_task(&mut frame.tasks, Task::Run(again));
                schedule_owned(&mut frame.tasks, round);
                go(frame)
            },
        },
        Task::Count(name, body) => match value {
            Value::Number(bits) => match count(bits) {
                Some(rounds) => {
                    push_task(&mut frame.tasks, Task::Iterate(name, body, 0, rounds));
                    go(frame)
                },
                None => Effect::Halt(RuntimeError::InvalidCount),
            },
            _ => Effect::Halt(RuntimeError::TypeMismatch),
        },
        Task::Emit => {
            let shown = output(&value);
            Effect::Stay(frame, Request::Print(shown), Phase::AwaitPrinted)
        },
        Task::Leave => {
            if frame.void {
                Effect::Halt(RuntimeError::UnexpectedReturn)
            } else {
                Effect::Leave(Some(value))
            }
        },
        Task::Gather => {
            let ghost before = values_view(frame.gathered@);
            frame.gathered.push(value);
            proof {
                assert(values_view(frame.gathered@) =~= before.push(value@));
            }
            go(frame)
        },
        _ => Effect::Halt(RuntimeError::Malformed),
    }
}

/// Performs a task in a frame.
pub fn perform(functions: &Vec<Function>, frame: Frame, task: Task) -> (r: Effect)
    ensures
        r@ == spec_perform(functions_view(functions@), frame@, task@),
{
    match task {
        Task::Run(node) => evaluate_node(frame, node),
        Task::Invoke(name, given) => invoke(functions, frame, name, given),
        Task::Iterate(name, body, next, rounds) => iterate(frame, name, body, next, rounds),
        _ => {
            let held = match &frame.current {
                None => {
                    return Effect::Halt(RuntimeError::MissingValue);
                },
                Some(value) => value.duplicate(),
            };
            consume(frame, task, held)
        },
    }
}

/// What the end of a frame's tasks leads to: a function that returns
/// nothing hands nothing to its caller; one that returns a value has
/// failed to do so.
pub open spec fn spec_conclude(frame: FrameView) -> EffectView {
    if frame.void {
        EffectView::Leave(None)
    } else {
        EffectView::Halt(RuntimeError::MissingReturn)
    }
}

} // verus!
