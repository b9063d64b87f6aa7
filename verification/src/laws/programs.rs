//! Laws of whole programs: what declaring and printing a literal gives,
//! and that an idle program prints nothing.
use vstd::prelude::*;
use crate::ast::{is_statement, is_value, well_formed, NodeView};
use crate::frame::{spec_evaluate_node, spec_new_frame, spec_output, spec_with_tasks, EffectView,
    FrameView, FunctionView};
use crate::interpreter::{spec_evaluate, spec_start, spec_step, spec_table, StateView};
use crate::laws::{lemma_run_splits, lemma_runs_first, lemma_unfold, spec_printed, spec_ready,
    spec_run, spec_running, spec_waiting, Host};
use crate::parser::{spec_program, spec_word, SyntaxError};
use crate::protocol::{OutputView, Phase, ReplyView, RequestView, RuntimeError};
use crate::syntax_laws::{law_declare_and_print_source, law_idle_entry_point,
    spec_declare_print, spec_declares_and_prints, spec_idles, Tokens};
use crate::task::{spec_runs, TaskView};
use crate::text::spec_skip;
use crate::value::{Kind, ValueView};
use crate::vocabulary::Keyword;

verus! {

/// Every node is the node that does nothing.
pub open spec fn spec_all_noop(nodes: Seq<NodeView>) -> bool {
    forall|i: int| 0 <= i < nodes.len() ==> #[trigger] nodes[i] is Noop
}

/// Nodes that do nothing are taken off the stack one by one, and nothing
/// else changes.
pub proof fn lemma_noops_pass(
    host: Host,
    functions: Seq<FunctionView>,
    below: Seq<FrameView>,
    frame: FrameView,
    rest: Seq<TaskView>,
    noops: Seq<NodeView>,
)
    requires
        spec_all_noop(noops),
        frame.tasks == rest + spec_runs(noops),
    ensures
        spec_run(host, spec_running(functions, below, frame), ReplyView::Ready, noops.len()) == (
            spec_running(functions, below, spec_with_tasks(frame, rest)),
            ReplyView::Ready,
        ),
        spec_printed(host, spec_running(functions, below, frame), ReplyView::Ready, noops.len())
            == Seq::<OutputView>::empty(),
    decreases noops.len(),
{
    let s = spec_running(functions, below, frame);
    lemma_unfold(host, s, ReplyView::Ready, noops.len());
    if noops.len() == 0 {
        assert(frame.tasks =~= rest);
    } else {
        let tail = noops.drop_first();
        let shorter = spec_with_tasks(frame, rest + spec_runs(tail));
        lemma_runs_first(noops);
        assert(noops[0] is Noop);
        assert(frame.tasks.last() == TaskView::Run(NodeView::Noop));
        assert(frame.tasks.drop_last() =~= rest + spec_runs(tail));
        assert(s.stack.drop_last() =~= below);
        assert(spec_step(s, ReplyView::Ready) == (
            spec_running(functions, below, shorter),
            RequestView::Continue,
        ));
        assert(spec_all_noop(tail));
        lemma_noops_pass(host, functions, below, shorter, rest, tail);
    }
}

/// A program whose entry point holds nothing but nodes that do nothing,
/// or no node at all, runs to its end in as many steps as it has nodes
/// and two more, and prints nothing, whatever the driver replies.
pub proof fn law_idle_program(host: Host, functions: Seq<FunctionView>, body: Seq<NodeView>)
    requires
        spec_all_noop(body),
    ensures
        spec_run(host, spec_start(functions, body), ReplyView::Ready, body.len() + 2).0.phase
            == Phase::Finished,
        spec_printed(host, spec_start(functions, body), ReplyView::Ready, body.len() + 2)
            == Seq::<OutputView>::empty(),
{
    let start = spec_start(functions, body);
    let none = Seq::<FrameView>::empty();
    let none_left = Seq::<TaskView>::empty();
    let loaded = spec_with_tasks(spec_new_frame(), none_left + spec_runs(body));
    let idle = spec_with_tasks(loaded, none_left);
    assert(start.stack.drop_last() =~= none);
    assert(start.stack.last().tasks.drop_last() =~= none_left);
    assert(spec_step(start, ReplyView::Ready) == (
        spec_running(functions, none, loaded),
        RequestView::Continue,
    ));
    lemma_noops_pass(host, functions, none, loaded, none_left, body);
    let rested = spec_running(functions, none, idle);
    assert(rested.stack.drop_last() =~= none);
    assert(spec_step(rested, ReplyView::Ready).0.phase == Phase::Finished);
    assert(spec_step(rested, ReplyView::Ready).1 == RequestView::Finished);
    lemma_run_splits(host, start, ReplyView::Ready, 1, body.len());
    lemma_run_splits(host, start, ReplyView::Ready, 1 + body.len(), 1);
    lemma_unfold(host, start, ReplyView::Ready, 1);
    assert(spec_run(host, start, ReplyView::Ready, 1) == (
        spec_running(functions, none, loaded),
        ReplyView::Ready,
    )) by {
        reveal_with_fuel(spec_run, 2);
    }
    assert(spec_printed(host, start, ReplyView::Ready, 1) =~= Seq::<OutputView>::empty()) by {
        reveal_with_fuel(spec_printed, 2);
    }
    assert(spec_run(host, rested, ReplyView::Ready, 1).0.phase == Phase::Finished) by {
        reveal_with_fuel(spec_run, 2);
    }
    assert(spec_printed(host, rested, ReplyView::Ready, 1) =~= Seq::<OutputView>::empty()) by {
        reveal_with_fuel(spec_printed, 2);
    }
    assert(1 + body.len() + 1 == body.len() + 2);
}

/// The value that a literal stands for, with a driver that converts
/// numerals.
pub open spec fn spec_literal_value(host: Host, literal: NodeView) -> ValueView {
    match literal {
        NodeView::Float(number) => ValueView::Number((host.convert)(number)),
        NodeView::String(text) => ValueView::Text(text),
        NodeView::Boolean(truth) => ValueView::Boolean(truth),
        _ => arbitrary(),
    }
}

/// The declaration of a variable whose initial value is the literal, of
/// the literal's kind.
pub open spec fn spec_declaration_of(name: Seq<char>, literal: NodeView) -> NodeView {
    match literal {
        NodeView::Float(_) => NodeView::DeclareFloat(name, Box::new(literal)),
        NodeView::String(_) => NodeView::DeclareString(name, Box::new(literal)),
        _ => NodeView::DeclareBoolean(name, Box::new(literal)),
    }
}

/// The kind of a literal.
pub open spec fn spec_literal_kind(literal: NodeView) -> Kind {
    match literal {
        NodeView::Float(_) => Kind::Number,
        NodeView::String(_) => Kind::Text,
        _ => Kind::Boolean,
    }
}

/// The program that declares a variable with a literal and prints the
/// variable.
pub open spec fn spec_declare_and_print(name: Seq<char>, literal: NodeView) -> Seq<NodeView> {
    seq![
        spec_declaration_of(name, literal),
        NodeView::Print(Box::new(NodeView::Variable(name))),
    ]
}

/// A declaration whose initial value is a literal of the declared kind
/// binds its variable to the literal's value in three steps, whatever
/// else the frame holds: the check of the value's kind cannot fail.
pub proof fn law_declaration_binds(
    host: Host,
    functions: Seq<FunctionView>,
    below: Seq<FrameView>,
    frame: FrameView,
    rest: Seq<TaskView>,
    name: Seq<char>,
    literal: NodeView,
)
    requires
        literal is Float || literal is String || literal is Boolean,
        frame.tasks == rest.push(TaskView::Run(spec_declaration_of(name, literal))),
    ensures
        spec_run(host, spec_running(functions, below, frame), ReplyView::Ready, 3) == (
            spec_running(
                functions,
                below,
                FrameView {
                    variables: frame.variables.insert(name, spec_literal_value(host, literal)),
                    current: Some(spec_literal_value(host, literal)),
                    tasks: rest,
                    ..frame
                },
            ),
            ReplyView::Ready,
        ),
        spec_printed(host, spec_running(functions, below, frame), ReplyView::Ready, 3) == Seq::<
            OutputView,
        >::empty(),
{
    let value = spec_literal_value(host, literal);
    let kind = spec_literal_kind(literal);
    let defining = rest.push(TaskView::Define(kind, name));
    let s0 = spec_running(functions, below, frame);
    let f1 = spec_with_tasks(frame, defining.push(TaskView::Run(literal)));
    let s1 = spec_running(functions, below, f1);
    let f2 = if literal is Float {
        spec_with_tasks(frame, defining)
    } else {
        FrameView { current: Some(value), tasks: defining, ..frame }
    };
    let phase2 = if literal is Float {
        Phase::AwaitNumber
    } else {
        Phase::Running
    };
    let s2 = spec_waiting(functions, below, f2, phase2);
    let r2 = if literal is Float {
        ReplyView::Number((host.convert)(literal->Float_0))
    } else {
        ReplyView::Ready
    };
    let q2 = if literal is Float {
        RequestView::Convert(literal->Float_0)
    } else {
        RequestView::Continue
    };
    let f3 = FrameView {
        variables: frame.variables.insert(name, value),
        current: Some(value),
        tasks: rest,
        ..frame
    };
    let s3 = spec_running(functions, below, f3);
    let ready = ReplyView::Ready;
    let nothing = Seq::<OutputView>::empty();
    assert(spec_step(s0, ready) == (s1, RequestView::Continue)) by {
        assert(s0.stack.drop_last() =~= below);
        assert(frame.tasks.drop_last() =~= rest);
    }
    assert(spec_step(s1, ready) == (s2, q2)) by {
        assert(s1.stack.drop_last() =~= below);
        assert(f1.tasks.drop_last() =~= defining);
    }
    assert(spec_step(s2, r2) == (s3, RequestView::Continue)) by {
        assert(s2.stack.drop_last() =~= below);
        assert(defining.drop_last() =~= rest);
    }
    lemma_unfold(host, s3, ready, 0);
    assert(spec_run(host, s3, ready, 0) == (s3, ready));
    lemma_unfold(host, s2, r2, 1);
    assert(spec_run(host, s2, r2, 1) == spec_run(host, s3, ready, 0));
    lemma_unfold(host, s1, ready, 2);
    assert(spec_run(host, s1, ready, 2) == spec_run(host, s2, r2, 1));
    lemma_unfold(host, s0, ready, 3);
    assert(spec_run(host, s0, ready, 3) == spec_run(host, s1, ready, 2));
    assert(spec_printed(host, s3, ready, 0) == nothing);
    assert(spec_printed(host, s2, r2, 1) == spec_printed(host, s3, ready, 0));
    assert(spec_printed(host, s1, ready, 2) == spec_printed(host, s2, r2, 1));
    assert(spec_printed(host, s0, ready, 3) == spec_printed(host, s1, ready, 2));
}

/// Printing a variable takes three steps and hands out the variable's
/// value to be printed, once.
pub proof fn law_print_variable(
    host: Host,
    functions: Seq<FunctionView>,
    below: Seq<FrameView>,
    frame: FrameView,
    phase: Phase,
    rest: Seq<TaskView>,
    name: Seq<char>,
)
    requires
        spec_ready(phase),
        frame.variables.contains_key(name),
        frame.tasks == rest.push(
            TaskView::Run(NodeView::Print(Box::new(NodeView::Variable(name)))),
        ),
    ensures
        spec_run(host, spec_waiting(functions, below, frame, phase), ReplyView::Ready, 3) == (
            spec_waiting(
                functions,
                below,
                FrameView { current: Some(frame.variables[name]), tasks: rest, ..frame },
                Phase::AwaitPrinted,
            ),
            ReplyView::Ready,
        ),
        spec_printed(host, spec_waiting(functions, below, frame, phase), ReplyView::Ready, 3)
            == seq![spec_output(frame.variables[name])],
{
    let value = frame.variables[name];
    let emitting = rest.push(TaskView::Emit);
    let s0 = spec_waiting(functions, below, frame, phase);
    let f1 = spec_with_tasks(frame, emitting.push(TaskView::Run(NodeView::Variable(name))));
    let s1 = spec_running(functions, below, f1);
    let f2 = FrameView { current: Some(value), tasks: emitting, ..frame };
    let s2 = spec_running(functions, below, f2);
    let f3 = FrameView { current: Some(value), tasks: rest, ..frame };
    let s3 = spec_waiting(functions, below, f3, Phase::AwaitPrinted);
    let ready = ReplyView::Ready;
    assert(spec_step(s0, ready) == (s1, RequestView::Continue)) by {
        assert(s0.stack.drop_last() =~= below);
        assert(frame.tasks.drop_last() =~= rest);
    }
    assert(spec_step(s1, ready) == (s2, RequestView::Continue)) by {
        assert(s1.stack.drop_last() =~= below);
        assert(f1.tasks.drop_last() =~= emitting);
    }
    assert(spec_step(s2, ready) == (s3, RequestView::Print(spec_output(value)))) by {
        assert(s2.stack.drop_last() =~= below);
        assert(emitting.drop_last() =~= rest);
    }
    lemma_unfold(host, s3, ready, 0);
    assert(spec_run(host, s3, ready, 0) == (s3, ready));
    lemma_unfold(host, s2, ready, 1);
    assert(spec_run(host, s2, ready, 1) == spec_run(host, s3, ready, 0));
    lemma_unfold(host, s1, ready, 2);
    assert(spec_run(host, s1, ready, 2) == spec_run(host, s2, ready, 1));
    lemma_unfold(host, s0, ready, 3);
    assert(spec_run(host, s0, ready, 3) == spec_run(host, s1, ready, 2));
    assert(spec_printed(host, s3, ready, 0) == Seq::<OutputView>::empty());
    assert(spec_printed(host, s2, ready, 1) =~= seq![spec_output(value)]);
    assert(spec_printed(host, s1, ready, 2) == spec_printed(host, s2, ready, 1));
    assert(spec_printed(host, s0, ready, 3) == spec_printed(host, s1, ready, 2));
}

/// The first step of a run puts the statements of the entry point on the
/// stack.
proof fn lemma_first_step(host: Host, functions: Seq<FunctionView>, body: Seq<NodeView>)
    ensures
        spec_run(host, spec_start(functions, body), ReplyView::Ready, 1) == (
            spec_running(
                functions,
                Seq::empty(),
                spec_with_tasks(spec_new_frame(), spec_runs(body)),
            ),
            ReplyView::Ready,
        ),
        spec_printed(host, spec_start(functions, body), ReplyView::Ready, 1) == Seq::<
            OutputView,
        >::empty(),
{
    let start = spec_start(functions, body);
    let none = Seq::<FrameView>::empty();
    let s1 = spec_running(functions, none, spec_with_tasks(spec_new_frame(), spec_runs(body)));
    let ready = ReplyView::Ready;
    assert(spec_step(start, ready) == (s1, RequestView::Continue)) by {
        assert(start.stack.drop_last() =~= none);
        assert(start.stack.last().tasks.drop_last() =~= Seq::<TaskView>::empty());
        assert(Seq::<TaskView>::empty() + spec_runs(body) =~= spec_runs(body));
    }
    lemma_unfold(host, s1, ready, 0);
    assert(spec_run(host, s1, ready, 0) == (s1, ready));
    lemma_unfold(host, start, ready, 1);
    assert(spec_run(host, start, ready, 1) == spec_run(host, s1, ready, 0));
    assert(spec_printed(host, s1, ready, 0) == Seq::<OutputView>::empty());
    assert(spec_printed(host, start, ready, 1) == spec_printed(host, s1, ready, 0));
}

/// The last step of a run: the frame of the entry point has nothing left
/// to do, and the machine finishes.
proof fn lemma_last_step(host: Host, functions: Seq<FunctionView>, frame: FrameView, phase: Phase)
    requires
        phase == Phase::Running || phase == Phase::AwaitPrinted,
        frame.tasks.len() == 0,
        frame.void,
    ensures
        spec_run(
            host,
            spec_waiting(functions, Seq::empty(), frame, phase),
            ReplyView::Ready,
            1,
        ).0.phase == Phase::Finished,
        spec_printed(
            host,
            spec_waiting(functions, Seq::empty(), frame, phase),
            ReplyView::Ready,
            1,
        ) == Seq::<OutputView>::empty(),
{
    let none = Seq::<FrameView>::empty();
    let s0 = spec_waiting(functions, none, frame, phase);
    let s1 = StateView { functions, stack: none, phase: Phase::Finished };
    let ready = ReplyView::Ready;
    assert(spec_step(s0, ready) == (s1, RequestView::Finished)) by {
        assert(s0.stack.drop_last() =~= none);
    }
    lemma_unfold(host, s1, ready, 0);
    assert(spec_run(host, s1, ready, 0) == (s1, ready));
    lemma_unfold(host, s0, ready, 1);
    assert(spec_run(host, s0, ready, 1) == spec_run(host, s1, ready, 0));
    assert(spec_printed(host, s1, ready, 0) == Seq::<OutputView>::empty());
    assert(spec_printed(host, s0, ready, 1) == spec_printed(host, s1, ready, 0));
}

/// A program that declares a variable with a literal of any kind and
/// prints the variable hands out the literal's value to be printed,
/// exactly once, and runs to its end (in eight steps).
pub proof fn law_declare_and_print(
    host: Host,
    functions: Seq<FunctionView>,
    name: Seq<char>,
    literal: NodeView,
)
    requires
        literal is Float || literal is String || literal is Boolean,
    ensures
        spec_run(
            host,
            spec_start(functions, spec_declare_and_print(name, literal)),
            ReplyView::Ready,
            8,
        ).0.phase == Phase::Finished,
        spec_printed(
            host,
            spec_start(functions, spec_declare_and_print(name, literal)),
            ReplyView::Ready,
            8,
        ) == seq![spec_output(spec_literal_value(host, literal))],
{
    let body = spec_declare_and_print(name, literal);
    let print = TaskView::Run(NodeView::Print(Box::new(NodeView::Variable(name))));
    let value = spec_literal_value(host, literal);
    let none = Seq::<FrameView>::empty();
    let ready = ReplyView::Ready;
    let nothing = Seq::<OutputView>::empty();
    let line = seq![spec_output(value)];
    let start = spec_start(functions, body);
    let f1 = spec_with_tasks(spec_new_frame(), spec_runs(body));
    let s1 = spec_running(functions, none, f1);
    let f4 = FrameView {
        variables: f1.variables.insert(name, value),
        current: Some(value),
        tasks: seq![print],
        ..f1
    };
    let s4 = spec_running(functions, none, f4);
    let f7 = FrameView { current: Some(value), tasks: Seq::empty(), ..f4 };
    let s7 = spec_waiting(functions, none, f7, Phase::AwaitPrinted);
    lemma_first_step(host, functions, body);
    assert(f1.tasks =~= seq![print].push(TaskView::Run(spec_declaration_of(name, literal))));
    law_declaration_binds(host, functions, none, f1, seq![print], name, literal);
    assert(f4.tasks =~= Seq::<TaskView>::empty().push(print));
    law_print_variable(host, functions, none, f4, Phase::Running, Seq::empty(), name);
    lemma_last_step(host, functions, f7, Phase::AwaitPrinted);
    lemma_run_splits(host, start, ready, 1, 3);
    lemma_run_splits(host, start, ready, 4, 3);
    lemma_run_splits(host, start, ready, 7, 1);
    lemma_unfold(host, start, ready, 4);
    assert(spec_run(host, start, ready, 4) == (s4, ready));
    lemma_unfold(host, start, ready, 7);
    assert(spec_run(host, start, ready, 7) == (s7, ready));
    assert(nothing + nothing =~= nothing);
    assert(nothing + line =~= line);
    assert(line + nothing =~= line);
}

/// From source to output: a source that the grammar reads as an entry
/// point which declares a variable with a literal and prints the variable
/// gives a machine that hands out the literal's value to be printed,
/// exactly once, and then has run to its end.
pub proof fn law_round_trip(host: Host, source: Seq<char>, name: Seq<char>, literal: NodeView)
    requires
        literal is Float || literal is String || literal is Boolean,
        spec_program(source) == Ok::<Seq<NodeView>, SyntaxError>(
            seq![NodeView::Main(spec_declare_and_print(name, literal))],
        ),
    ensures
        spec_evaluate(spec_program(source).unwrap()) == Ok::<StateView, RuntimeError>(
            spec_start(Seq::empty(), spec_declare_and_print(name, literal)),
        ),
        spec_run(
            host,
            spec_evaluate(spec_program(source).unwrap()).unwrap(),
            ReplyView::Ready,
            8,
        ).0.phase == Phase::Finished,
        spec_printed(
            host,
            spec_evaluate(spec_program(source).unwrap()).unwrap(),
            ReplyView::Ready,
            8,
        ) == seq![spec_output(spec_literal_value(host, literal))],
{
    let nodes = spec_program(source).unwrap();
    assert(nodes.drop_last() =~= Seq::<NodeView>::empty());
    assert(spec_table(nodes.drop_last()) == Ok::<
        (Seq<FunctionView>, Option<Seq<NodeView>>),
        RuntimeError,
    >((Seq::empty(), None)));
    assert(nodes.last() == NodeView::Main(spec_declare_and_print(name, literal)));
    law_declare_and_print(host, Seq::empty(), name, literal);
}

/// An idle source runs to its end and prints nothing: where the grammar
/// reads a source as an entry point that holds nothing but nodes that do
/// nothing, or no node at all, the machine for it finishes without a
/// line of output.
pub proof fn law_idle_source(host: Host, source: Seq<char>, body: Seq<NodeView>)
    requires
        spec_all_noop(body),
        spec_program(source) == Ok::<Seq<NodeView>, SyntaxError>(seq![NodeView::Main(body)]),
    ensures
        spec_evaluate(spec_program(source).unwrap()) == Ok::<StateView, RuntimeError>(
            spec_start(Seq::empty(), body),
        ),
        spec_run(
            host,
            spec_evaluate(spec_program(source).unwrap()).unwrap(),
            ReplyView::Ready,
            body.len() + 2,
        ).0.phase == Phase::Finished,
        spec_printed(
            host,
            spec_evaluate(spec_program(source).unwrap()).unwrap(),
            ReplyView::Ready,
            body.len() + 2,
        ) == Seq::<OutputView>::empty(),
{
    let nodes = spec_program(source).unwrap();
    assert(nodes.drop_last() =~= Seq::<NodeView>::empty());
    assert(spec_table(nodes.drop_last()) == Ok::<
        (Seq<FunctionView>, Option<Seq<NodeView>>),
        RuntimeError,
    >((Seq::empty(), None)));
    assert(nodes.last() == NodeView::Main(body));
    law_idle_program(host, Seq::empty(), body);
}

/// A source whose entry point holds nothing but phrases that do nothing,
/// blanks and comments, or nothing at all, is a program that runs to its
/// end in two steps and prints nothing.
pub proof fn law_idle_text(host: Host, source: Seq<char>, end: int)
    requires
        spec_word(source, spec_skip(source, 0), Keyword::Main) is Some,
        spec_idles(
            source,
            spec_word(source, spec_skip(source, 0), Keyword::Main).unwrap(),
            end,
        ),
        spec_word(source, end, Keyword::EndMain) == Some(source.len() as int),
    ensures
        spec_program(source) is Ok,
        spec_evaluate(spec_program(source).unwrap()) is Ok,
        spec_run(
            host,
            spec_evaluate(spec_program(source).unwrap()).unwrap(),
            ReplyView::Ready,
            2,
        ).0.phase == Phase::Finished,
        spec_printed(
            host,
            spec_evaluate(spec_program(source).unwrap()).unwrap(),
            ReplyView::Ready,
            2,
        ) == Seq::<OutputView>::empty(),
{
    law_idle_entry_point(source, end);
    law_idle_source(host, source, Seq::empty());
}

/// From the text of a source to its output: a source made of the tokens
/// of an entry point that declares a variable with a literal and prints
/// the variable is a program, and the machine for it hands out the
/// literal's value to be printed, exactly once, and runs to its end.
pub proof fn law_source_round_trip(
    host: Host,
    source: Seq<char>,
    tokens: Tokens,
    kind: Keyword,
    name: Seq<char>,
    literal: NodeView,
)
    requires
        spec_declares_and_prints(source, tokens, kind, name, literal),
    ensures
        spec_program(source) is Ok,
        spec_evaluate(spec_program(source).unwrap()) is Ok,
        spec_run(
            host,
            spec_evaluate(spec_program(source).unwrap()).unwrap(),
            ReplyView::Ready,
            8,
        ).0.phase == Phase::Finished,
        spec_printed(
            host,
            spec_evaluate(spec_program(source).unwrap()).unwrap(),
            ReplyView::Ready,
            8,
        ) == seq![spec_output(spec_literal_value(host, literal))],
{
    law_declare_and_print_source(source, tokens, kind, name, literal);
    assert(spec_declare_print(kind, name, literal) == spec_declare_and_print(name, literal));
    law_round_trip(host, source, name, literal);
}

/// The shapes that the parser builds are the shapes that the
/// interpreter runs: running a well-formed statement, value or operation
/// never ends with the error of an unexpected shape.
pub proof fn law_well_formed_nodes_run(frame: FrameView, node: NodeView)
    requires
        well_formed(node),
        is_statement(node) || is_value(node) || node is Binary || node is Unary || node is Main,
    ensures
        spec_evaluate_node(frame, node) != EffectView::Halt(RuntimeError::Malformed),
{
}

} // verus!
