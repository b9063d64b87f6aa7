use force::ast::{BinaryOperation, Node};
use force::frame::{
    evaluate_binary, evaluate_node, holds, lookup, math_operations, output, perform, Answer,
    Effect, Frame, Function,
};
use force::interpreter::{entered_truth, receive, Received, State};
use force::number::Number;
use force::protocol::{explain, Output, Phase, Reply, Request, RuntimeError};
use force::scope::Scope;
use force::task::{pop_task, push_task, schedule, schedule_arguments, schedule_owned, Task};
use force::value::{Kind, Value};

fn text(value: &str) -> Value {
    Value::Text(value.to_string())
}

#[test]
fn scopes_are_maps() {
    let mut scope = Scope::new();
    assert_eq!(scope.get(&"a".to_string()), None);
    scope.set("a".to_string(), Value::Number(1));
    scope.set("b".to_string(), text("x"));
    scope.set("a".to_string(), Value::Boolean(true));
    assert_eq!(scope.get(&"a".to_string()), Some(Value::Boolean(true)));
    assert_eq!(scope.get(&"b".to_string()), Some(text("x")));
    assert_eq!(scope.get(&"c".to_string()), None);
    assert_eq!(scope.bindings.len(), 2);
}

#[test]
fn values_have_kinds() {
    assert_eq!(Value::Number(0).kind(), Kind::Number);
    assert_eq!(text("").kind(), Kind::Text);
    assert_eq!(Value::Boolean(false).kind(), Kind::Boolean);
    assert_eq!(text("x").duplicate(), text("x"));
    assert_eq!(holds(&Value::Boolean(true)), Some(true));
    assert_eq!(holds(&Value::Boolean(false)), Some(false));
    assert_eq!(holds(&Value::Number(0)), Some(false));
    assert_eq!(holds(&Value::Number(0x8000_0000)), Some(false));
    assert_eq!(holds(&Value::Number(1)), Some(true));
    assert_eq!(holds(&text("true")), None);
    assert_eq!(output(&Value::Number(7)), Output::Number(7));
    assert_eq!(output(&text("a b")), Output::Text("a b".to_string()));
    assert_eq!(output(&Value::Boolean(true)), Output::Text("true".to_string()));
    assert_eq!(output(&Value::Boolean(false)), Output::Text("false".to_string()));
}

#[test]
fn binary_operations_by_kind() {
    let x = Value::Number(3);
    let y = Value::Number(4);
    for operation in [
        BinaryOperation::Add,
        BinaryOperation::Subtract,
        BinaryOperation::Multiply,
        BinaryOperation::Divide,
        BinaryOperation::Exponent,
        BinaryOperation::Modulus,
    ] {
        assert_eq!(
            evaluate_binary(operation, &x, &y),
            Ok(Answer::Ask(Request::Arithmetic(operation, 3, 4)))
        );
        assert_eq!(math_operations(operation, &x, &y), Ok(Request::Arithmetic(operation, 3, 4)));
        assert_eq!(evaluate_binary(operation, &x, &text("4")), Err(RuntimeError::TypeMismatch));
        assert_eq!(
            evaluate_binary(operation, &Value::Boolean(true), &y),
            Err(RuntimeError::TypeMismatch)
        );
        assert_eq!(math_operations(operation, &text("3"), &y), Err(RuntimeError::TypeMismatch));
    }
    for operation in
        [BinaryOperation::Equal, BinaryOperation::GreaterThan, BinaryOperation::LessThan]
    {
        assert_eq!(
            evaluate_binary(operation, &x, &y),
            Ok(Answer::Ask(Request::Compare(operation, 3, 4)))
        );
        assert_eq!(
            evaluate_binary(operation, &text("a"), &text("a")),
            Err(RuntimeError::TypeMismatch)
        );
    }
    for (a, b) in [(false, false), (false, true), (true, false), (true, true)] {
        assert_eq!(
            evaluate_binary(BinaryOperation::Or, &Value::Boolean(a), &Value::Boolean(b)),
            Ok(Answer::Know(Value::Boolean(a || b)))
        );
        assert_eq!(
            evaluate_binary(BinaryOperation::And, &Value::Boolean(a), &Value::Boolean(b)),
            Ok(Answer::Know(Value::Boolean(a && b)))
        );
    }
    assert_eq!(
        evaluate_binary(BinaryOperation::Or, &x, &Value::Boolean(true)),
        Err(RuntimeError::TypeMismatch)
    );
    assert_eq!(
        evaluate_binary(BinaryOperation::And, &Value::Boolean(true), &y),
        Err(RuntimeError::TypeMismatch)
    );
}

#[test]
fn tasks_are_stacked_in_running_order() {
    let nodes = vec![Node::Boolean(true), Node::Noop, Node::Boolean(false)];
    let mut tasks = vec![Task::Emit];
    schedule(&mut tasks, &nodes);
    assert_eq!(
        tasks,
        vec![
            Task::Emit,
            Task::Run(Node::Boolean(false)),
            Task::Run(Node::Noop),
            Task::Run(Node::Boolean(true)),
        ]
    );
    let mut owned = vec![Task::Emit];
    schedule_owned(&mut owned, nodes);
    assert_eq!(owned, tasks);
    let mut calls = vec![Task::Leave];
    schedule_arguments(&mut calls, &vec![Node::Boolean(true), Node::Boolean(false)]);
    assert_eq!(
        calls,
        vec![
            Task::Leave,
            Task::Gather,
            Task::Run(Node::Boolean(false)),
            Task::Gather,
            Task::Run(Node::Boolean(true)),
        ]
    );
    push_task(&mut calls, Task::Emit);
    assert_eq!(pop_task(&mut calls), Some(Task::Emit));
    assert_eq!(calls.len(), 5);
    assert_eq!(pop_task(&mut Vec::new()), None);
}

#[test]
fn an_assignment_becomes_tasks() {
    let assignment = Node::AssignVariable(
        "x".to_string(),
        Box::new(Node::Boolean(true)),
        vec![
            Node::Binary(BinaryOperation::Or, Box::new(Node::Boolean(false))),
            Node::Binary(BinaryOperation::And, Box::new(Node::Boolean(true))),
        ],
    );
    match evaluate_node(Frame::new(), assignment) {
        Effect::Stay(frame, Request::Continue, Phase::Running) => assert_eq!(
            frame.tasks,
            vec![
                Task::Bind("x".to_string()),
                Task::Run(Node::Binary(BinaryOperation::And, Box::new(Node::Boolean(true)))),
                Task::Run(Node::Binary(BinaryOperation::Or, Box::new(Node::Boolean(false)))),
                Task::Run(Node::Boolean(true)),
            ]
        ),
        other => panic!("{:?}", other),
    }
}

#[test]
fn a_call_binds_parameters_to_arguments() {
    let functions = vec![
        Function {
            name: "other".to_string(),
            parameters: vec![],
            body: vec![],
            void: true,
        },
        Function {
            name: "f".to_string(),
            parameters: vec!["a".to_string(), "b".to_string(), "a".to_string()],
            body: vec![Node::Noop, Node::Boolean(true)],
            void: false,
        },
    ];
    assert_eq!(lookup(&functions, &"f".to_string()), Some(1));
    assert_eq!(lookup(&functions, &"g".to_string()), None);
    let mut caller = Frame::new();
    caller.gathered = vec![text("kept"), Value::Number(1), Value::Number(2), Value::Number(3)];
    caller.current = Some(text("mine"));
    match perform(&functions, caller, Task::Invoke("f".to_string(), 3)) {
        Effect::Enter(caller, callee) => {
            assert_eq!(caller.gathered, vec![text("kept")]);
            assert_eq!(caller.current, Some(text("mine")));
            assert_eq!(callee.variables.get(&"a".to_string()), Some(Value::Number(3)));
            assert_eq!(callee.variables.get(&"b".to_string()), Some(Value::Number(2)));
            assert_eq!(callee.variables.bindings.len(), 2);
            assert_eq!(callee.current, None);
            assert!(callee.gathered.is_empty());
            assert!(!callee.void);
            assert_eq!(
                callee.tasks,
                vec![Task::Run(Node::Boolean(true)), Task::Run(Node::Noop)]
            );
        }
        other => panic!("{:?}", other),
    }
    let mut short = Frame::new();
    short.gathered = vec![Value::Number(1)];
    assert_eq!(
        perform(&functions, short, Task::Invoke("f".to_string(), 3)),
        Effect::Halt(RuntimeError::Malformed)
    );
    assert_eq!(
        perform(&functions, Frame::new(), Task::Invoke("f".to_string(), 2)),
        Effect::Halt(RuntimeError::ArityMismatch)
    );
    assert_eq!(
        perform(&functions, Frame::new(), Task::Invoke("g".to_string(), 0)),
        Effect::Halt(RuntimeError::UndeclaredFunction)
    );
}

#[test]
fn tasks_on_the_current_value() {
    let functions = Vec::new();
    let with = |value: Value| {
        let mut frame = Frame::new();
        frame.current = Some(value);
        frame
    };
    for task in [Task::Emit, Task::Leave, Task::Gather, Task::Bind("x".to_string())] {
        assert_eq!(
            perform(&functions, Frame::new(), task),
            Effect::Halt(RuntimeError::MissingValue)
        );
    }
    let ten = Value::Number(0x4120_0000);
    match perform(&functions, with(ten), Task::Count("i".to_string(), vec![])) {
        Effect::Stay(frame, Request::Continue, Phase::Running) => {
            assert_eq!(frame.tasks, vec![Task::Iterate("i".to_string(), vec![], 0, 10)])
        }
        other => panic!("{:?}", other),
    }
    match perform(
        &functions,
        Frame::new(),
        Task::Iterate("i".to_string(), vec![Node::Noop], 4, 5),
    ) {
        Effect::Stay(frame, Request::Convert(index), Phase::AwaitNumber) => {
            assert_eq!(index, Number::from_index(4));
            assert_eq!(
                frame.tasks,
                vec![
                    Task::Iterate("i".to_string(), vec![Node::Noop], 5, 5),
                    Task::Run(Node::Noop),
                    Task::Bind("i".to_string()),
                ]
            );
        }
        other => panic!("{:?}", other),
    }
    match perform(
        &functions,
        with(Value::Boolean(true)),
        Task::Iterate("i".to_string(), vec![Node::Noop], 5, 5),
    ) {
        Effect::Stay(frame, Request::Continue, Phase::Running) => assert!(frame.tasks.is_empty()),
        other => panic!("{:?}", other),
    }
    match perform(&functions, with(text("v")), Task::Define(Kind::Text, "x".to_string())) {
        Effect::Stay(frame, Request::Continue, Phase::Running) => {
            assert_eq!(frame.variables.get(&"x".to_string()), Some(text("v")))
        }
        other => panic!("{:?}", other),
    }
    assert_eq!(
        perform(&functions, with(text("v")), Task::Define(Kind::Number, "x".to_string())),
        Effect::Halt(RuntimeError::TypeMismatch)
    );
    let mut returning = with(text("v"));
    returning.void = false;
    assert_eq!(perform(&functions, returning, Task::Leave), Effect::Leave(Some(text("v"))));
    assert_eq!(
        perform(&functions, with(text("v")), Task::Leave),
        Effect::Halt(RuntimeError::UnexpectedReturn)
    );
}

#[test]
fn replies_by_phase() {
    assert_eq!(receive(Phase::Running, Reply::Ready), Received::Proceed(None));
    assert_eq!(receive(Phase::AwaitPrinted, Reply::Ready), Received::Proceed(None));
    assert_eq!(
        receive(Phase::AwaitNumber, Reply::Number(5)),
        Received::Proceed(Some(Value::Number(5)))
    );
    assert_eq!(
        receive(Phase::AwaitBoolean, Reply::Boolean(true)),
        Received::Proceed(Some(Value::Boolean(true)))
    );
    assert_eq!(
        receive(Phase::AwaitLine(Kind::Text), Reply::Line(Some(" a ".to_string()))),
        Received::Proceed(Some(text(" a ")))
    );
    assert_eq!(
        receive(Phase::AwaitLine(Kind::Boolean), Reply::Line(Some("\ttrue ".to_string()))),
        Received::Proceed(Some(Value::Boolean(true)))
    );
    assert_eq!(
        receive(Phase::AwaitLine(Kind::Number), Reply::Line(Some(" -1.50".to_string()))),
        Received::Convert(Number::parse("-1.5").unwrap())
    );
    assert_eq!(
        receive(Phase::AwaitLine(Kind::Number), Reply::Line(Some("1,5".to_string()))),
        Received::Fail(RuntimeError::InvalidInput)
    );
    assert_eq!(
        receive(Phase::AwaitLine(Kind::Boolean), Reply::Line(Some("True".to_string()))),
        Received::Fail(RuntimeError::InvalidInput)
    );
    assert_eq!(
        receive(Phase::AwaitLine(Kind::Text), Reply::Line(None)),
        Received::Fail(RuntimeError::EndOfInput)
    );
    for (phase, reply) in [
        (Phase::Running, Reply::Number(1)),
        (Phase::AwaitNumber, Reply::Ready),
        (Phase::AwaitNumber, Reply::Boolean(true)),
        (Phase::AwaitBoolean, Reply::Number(1)),
        (Phase::AwaitPrinted, Reply::Line(None)),
        (Phase::AwaitLine(Kind::Text), Reply::Ready),
    ] {
        assert_eq!(receive(phase, reply), Received::Fail(RuntimeError::UnexpectedReply));
    }
    assert_eq!(entered_truth("true"), Some(true));
    assert_eq!(entered_truth(" false\t"), Some(false));
    assert_eq!(entered_truth("truefalse"), None);
    assert_eq!(entered_truth("true false"), None);
    assert_eq!(entered_truth(""), None);
}

#[test]
fn new_machines_and_explanations() {
    let state = State::new();
    assert!(state.functions.is_empty());
    assert_eq!(state.stack, vec![Frame::new()]);
    assert_eq!(state.phase, Phase::Running);
    let frame = Frame::new();
    assert!(frame.void);
    assert!(frame.tasks.is_empty());
    assert_eq!(frame.current, None);
    assert_eq!(explain(RuntimeError::EndOfInput), "the input has ended");
    assert_eq!(explain(RuntimeError::TypeMismatch), "a value is of the wrong kind");
    assert_eq!(explain(RuntimeError::MissingEntry), "the program has no entry point");
}
