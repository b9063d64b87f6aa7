use force::ast::{BinaryOperation, Node};
use force::interpreter::{evaluate, State};
use force::number::Number;
use force::parser::parse;
use force::protocol::{Output, Phase, Reply, Request, RuntimeError};
use force::value::{count, nonzero};

fn arithmetic(operation: BinaryOperation, x: f32, y: f32) -> f32 {
    match operation {
        BinaryOperation::Add => x + y,
        BinaryOperation::Subtract => x - y,
        BinaryOperation::Multiply => x * y,
        BinaryOperation::Divide => x / y,
        BinaryOperation::Exponent => x.powf(y),
        _ => x % y,
    }
}

fn compare(operation: BinaryOperation, x: f32, y: f32) -> bool {
    match operation {
        BinaryOperation::GreaterThan => x > y,
        BinaryOperation::LessThan => x < y,
        _ => x == y,
    }
}

struct Run {
    output: Vec<String>,
    requests: usize,
    result: Result<(), RuntimeError>,
}

fn drive(state: State, input: &[&str]) -> Run {
    let mut state = state;
    let mut output = Vec::new();
    let mut lines = input.iter();
    let mut reply = Reply::Ready;
    let mut requests = 0;
    loop {
        reply = match state.step(reply) {
            Request::Continue => Reply::Ready,
            Request::Convert(number) => {
                requests += 1;
                Reply::Number(number.text().parse::<f32>().unwrap().to_bits())
            }
            Request::Arithmetic(operation, x, y) => {
                requests += 1;
                Reply::Number(arithmetic(operation, f32::from_bits(x), f32::from_bits(y)).to_bits())
            }
            Request::Compare(operation, x, y) => {
                requests += 1;
                Reply::Boolean(compare(operation, f32::from_bits(x), f32::from_bits(y)))
            }
            Request::Print(Output::Text(text)) => {
                output.push(text);
                Reply::Ready
            }
            Request::Print(Output::Number(bits)) => {
                output.push(format!("{}", f32::from_bits(bits)));
                Reply::Ready
            }
            Request::Read => Reply::Line(lines.next().map(|line| line.to_string())),
            Request::Finished => {
                assert_eq!(state.phase, Phase::Finished);
                return Run { output, requests, result: Ok(()) };
            }
            Request::Failed(error) => {
                assert_eq!(state.phase, Phase::Failed(error));
                return Run { output, requests, result: Err(error) };
            }
        };
    }
}

fn run_with(source: &str, input: &[&str]) -> Run {
    let ast = parse(source).unwrap();
    match evaluate(ast) {
        Ok(state) => drive(state, input),
        Err(error) => Run { output: Vec::new(), requests: 0, result: Err(error) },
    }
}

fn run(source: &str) -> Run {
    run_with(source, &[])
}

fn lines(source: &str) -> Vec<String> {
    let done = run(source);
    assert_eq!(done.result, Ok(()));
    done.output
}

fn fails(source: &str) -> RuntimeError {
    run(source).result.unwrap_err()
}

#[test]
fn prints_a_string_literal_once() {
    let source = r#"
        Do it!
            Yoda. You seek Yoda. ewok
            Who, mesa? "Nub \"Nub\"\n"
            The Sacred Jedi Texts! ewok
        May The Force be with you.
    "#;
    assert_eq!(lines(source), vec!["Nub \"Nub\"\n".to_string()]);
}

#[test]
fn prints_a_numeric_literal_once() {
    let source = r#"
        Do it!
            Size matters not. jawa
            Who, mesa? -13.2
            The Sacred Jedi Texts! jawa
        May The Force be with you.
    "#;
    assert_eq!(lines(source), vec!["-13.2".to_string()]);
}

#[test]
fn prints_a_boolean_literal_once() {
    let source = r#"
        Do it!
            I am the Senate! darkSide
            Who, mesa? From a certain point of view.
            The Sacred Jedi Texts! darkSide
            I am the Senate! lightSide
            Who, mesa? That's impossible!
            The Sacred Jedi Texts! lightSide
        May The Force be with you.
    "#;
    assert_eq!(lines(source), vec!["true".to_string(), "false".to_string()]);
}

#[test]
fn chained_operations_apply_left_to_right() {
    let source = r#"
        Do it!
            Size matters not. porg
            Who, mesa? 4
            What a piece of junk! porg
                I am your father. porg
                Your lightsabers will make a fine addition to my collection. 2
                Proceed with the countdown. 1
                There's too many of them! 3
                Not to worry, we are still flying half a ship. 5
            The garbage will do.
            The Sacred Jedi Texts! porg
        May The Force be with you.
    "#;
    assert_eq!(lines(source), vec!["3".to_string()]);
}

#[test]
fn exponent_and_modulus() {
    let source = r#"
        Do it!
            What a piece of junk! porg
                I am your father. 3
                Unlimited power! 2
                Never tell me the odds! VII
            The garbage will do.
            The Sacred Jedi Texts! porg
            What a piece of junk! porg
                I am your father. -7.5
                Never tell me the odds! 2
            The garbage will do.
            The Sacred Jedi Texts! porg
        May The Force be with you.
    "#;
    assert_eq!(lines(source), vec!["2".to_string(), "-1.5".to_string()]);
}

#[test]
fn comparisons_give_booleans() {
    let source = r#"
        Do it!
            Size matters not. anakin
            Who, mesa? 27700
            Size matters not. luke
            Who, mesa? 14500
            Size matters not. leia
            Who, mesa? 14500
            What a piece of junk! midichlorian
                I am your father. luke
                Impressive. Most impressive. anakin
            The garbage will do.
            The Sacred Jedi Texts! midichlorian
            What a piece of junk! midichlorian
                I am your father. luke
                There's always a bigger fish. anakin
            The garbage will do.
            The Sacred Jedi Texts! midichlorian
            What a piece of junk! midichlorian
                I am your father. leia
                I am a Jedi, like my father before me. luke
            The garbage will do.
            The Sacred Jedi Texts! midichlorian
        May The Force be with you.
    "#;
    assert_eq!(
        lines(source),
        vec!["false".to_string(), "true".to_string(), "true".to_string()]
    );
}

#[test]
fn logical_chain() {
    let source = r#"
        Do it!
            I am the Senate! lightside
            Who, mesa? From a certain point of view.
            I am the Senate! darkside
            Who, mesa? That's impossible!
            I am the Senate! revan
            Who, mesa? That's impossible!
            What a piece of junk! revan
                I am your father. lightside
                There is another. darkside
            The garbage will do.
            The Sacred Jedi Texts! revan
            What a piece of junk! revan
                I am your father. revan
                As you wish. lightside
            The garbage will do.
            The Sacred Jedi Texts! revan
            What a piece of junk! revan
                I am your father. revan
                Always with you it cannot be done.
            The garbage will do.
            The Sacred Jedi Texts! revan
        May The Force be with you.
    "#;
    assert_eq!(
        lines(source),
        vec!["true".to_string(), "true".to_string(), "false".to_string()]
    );
}

#[test]
fn function_call_as_expression() {
    let source = r#"
        This is where the fun begins. TheOdds
        Now, that's a name I've not heard in a long time. A long time. odds
            I am the Senate! survive
            Who, mesa? That's impossible!

            What a piece of junk! survive
                I am your father. odds
                Never tell me the odds! 3720
                I am a Jedi, like my father before me. 0
            The garbage will do.

            You're all clear, kid. Now let's blow this thing and go home. survive
        You cannot escape your destiny.

        Do it!
            I am the Senate! survive
            Who, mesa? From a certain point of view.

            Many Bothans died to bring us this information. survive
                I have a bad feeling about this. TheOdds
                I'll try spinning, that's a good trick. 52
            The garbage will do.

            The Sacred Jedi Texts! survive
        May The Force be with you.
    "#;
    assert_eq!(lines(source), vec!["false".to_string()]);
}

#[test]
fn procedure_sees_only_its_parameters() {
    let source = r#"
        This is where the fun begins. NameTheSystem
        Now, that's a name I've not heard in a long time. A long time. planet
        It's a trap!
            The Sacred Jedi Texts! "Goodbye"
            The Sacred Jedi Texts! planet
            Yoda. You seek Yoda. inner
            Who, mesa? "local"
        You cannot escape your destiny.

        Do it!
            I have a bad feeling about this. NameTheSystem
            I'll try spinning, that's a good trick. "Alderaan"
            The Sacred Jedi Texts! inner
        May The Force be with you.
    "#;
    let done = run(source);
    assert_eq!(done.output, vec!["Goodbye".to_string(), "Alderaan".to_string()]);
    assert_eq!(done.result, Err(RuntimeError::UndeclaredVariable));

    let source = r#"
        This is where the fun begins. Peek
        It's a trap!
            The Sacred Jedi Texts! outer
        You cannot escape your destiny.

        Do it!
            Size matters not. outer
            Who, mesa? 1
            I have a bad feeling about this. Peek
        May The Force be with you.
    "#;
    assert_eq!(fails(source), RuntimeError::UndeclaredVariable);
}

#[test]
fn counted_loop_runs_its_body_count_times() {
    let source = r#"
        Do it!
            For over a thousand generations. 10
            Let the Wookiee win. deadYounglings
                The Sacred Jedi Texts! "swing"
            It is clear to me now the Republic no longer functions.
            The Sacred Jedi Texts! deadYounglings
        May The Force be with you.
    "#;
    let mut expected = vec!["swing".to_string(); 10];
    expected.push("9".to_string());
    assert_eq!(lines(source), expected);
}

#[test]
fn counted_loop_binds_the_index() {
    let source = r#"
        Do it!
            Size matters not. lightsaberSwings
            Who, mesa? 3
            For over a thousand generations. lightsaberSwings
            Let the Wookiee win. deadYounglings
                The Sacred Jedi Texts! deadYounglings
            It is clear to me now the Republic no longer functions.
        May The Force be with you.
    "#;
    assert_eq!(lines(source), vec!["0".to_string(), "1".to_string(), "2".to_string()]);
}

#[test]
fn counted_loop_goes_on_after_a_round_without_a_value() {
    let source = r#"
        This is where the fun begins. Swing
        It's a trap!
            The Sacred Jedi Texts! "swing"
        You cannot escape your destiny.

        Do it!
            For over a thousand generations. 3
            Let the Wookiee win. i
                I have a bad feeling about this. Swing
            It is clear to me now the Republic no longer functions.
            The Sacred Jedi Texts! i
        May The Force be with you.
    "#;
    assert_eq!(
        lines(source),
        vec!["swing".to_string(), "swing".to_string(), "swing".to_string(), "2".to_string()]
    );
}

#[test]
fn counted_loop_of_no_rounds_keeps_the_variable() {
    let source = r#"
        Do it!
            Size matters not. deadYounglings
            Who, mesa? 42
            For over a thousand generations. 0
            Let the Wookiee win. deadYounglings
                The Sacred Jedi Texts! "never"
            It is clear to me now the Republic no longer functions.
            The Sacred Jedi Texts! deadYounglings
        May The Force be with you.
    "#;
    assert_eq!(lines(source), vec!["42".to_string()]);
}

#[test]
fn counted_loop_refuses_bad_counts() {
    let with_count = |count: &str| {
        format!(
            "Do it!\nFor over a thousand generations. {}\nLet the Wookiee win. i\n\
             It is clear to me now the Republic no longer functions.\n\
             May The Force be with you.",
            count
        )
    };
    assert_eq!(fails(&with_count("-1")), RuntimeError::InvalidCount);
    assert_eq!(fails(&with_count("2.5")), RuntimeError::InvalidCount);
    assert_eq!(fails(&with_count("0.5")), RuntimeError::InvalidCount);
    assert_eq!(fails(&with_count("\"ten\"")), RuntimeError::TypeMismatch);
    assert_eq!(run(&with_count("-0")).result, Ok(()));
    assert_eq!(run(&with_count("1000")).requests, 1 + 1000);
}

#[test]
fn counts_of_numbers() {
    assert_eq!(count(0f32.to_bits()), Some(0));
    assert_eq!(count((-0f32).to_bits()), Some(0));
    assert_eq!(count(1f32.to_bits()), Some(1));
    assert_eq!(count(10f32.to_bits()), Some(10));
    assert_eq!(count(16777216f32.to_bits()), Some(16777216));
    assert_eq!(count(16777215f32.to_bits()), Some(16777215));
    assert_eq!(count(8388609f32.to_bits()), Some(8388609));
    assert_eq!(count(f32::MAX.to_bits()), Some(340282346638528859811704183484516925440));
    assert_eq!(count(2f32.powi(100).to_bits()), Some(1u128 << 100));
    assert_eq!(count(0.5f32.to_bits()), None);
    assert_eq!(count(1.5f32.to_bits()), None);
    assert_eq!(count(8388607.5f32.to_bits()), None);
    assert_eq!(count(f32::MIN_POSITIVE.to_bits()), None);
    assert_eq!(count(1e-45f32.to_bits()), None);
    assert_eq!(count((-1f32).to_bits()), None);
    assert_eq!(count(f32::INFINITY.to_bits()), None);
    assert_eq!(count(f32::NEG_INFINITY.to_bits()), None);
    assert_eq!(count(f32::NAN.to_bits()), None);
    assert!(!nonzero(0f32.to_bits()));
    assert!(!nonzero((-0f32).to_bits()));
    assert!(nonzero(1e-45f32.to_bits()));
    assert!(nonzero(f32::NAN.to_bits()));
    for n in 0..5000u32 {
        assert_eq!(count((n as f32).to_bits()), Some(n as u128));
        assert_eq!(count((n as f32 + 0.25).to_bits()), None);
        assert_eq!(nonzero((n as f32).to_bits()), n != 0);
    }
}

#[test]
fn condition_loop_stops_when_the_counter_is_zero() {
    let source = r#"
        Do it!
            Size matters not. deathStars
            Who, mesa? 3

            Here we go again. deathStars
                The Sacred Jedi Texts! deathStars

                What a piece of junk! deathStars
                    I am your father. deathStars
                    Proceed with the countdown. 1
                The garbage will do.
            Let the past die.
        May The Force be with you.
    "#;
    assert_eq!(lines(source), vec!["3".to_string(), "2".to_string(), "1".to_string()]);
}

#[test]
fn condition_loop_over_a_boolean() {
    let source = r#"
        Do it!
            I am the Senate! again
            Who, mesa? From a certain point of view.
            Here we go again. again
                The Sacred Jedi Texts! "once"
                What a piece of junk! again
                    I am your father. again
                    Always with you it cannot be done.
                The garbage will do.
            Let the past die.
            Here we go again. "text"
            Let the past die.
        May The Force be with you.
    "#;
    let done = run(source);
    assert_eq!(done.output, vec!["once".to_string()]);
    assert_eq!(done.result, Err(RuntimeError::TypeMismatch));
}

#[test]
fn conditional_takes_one_branch() {
    let source = r#"
        Do it!
            Do, or do not. There is no try. From a certain point of view.
                The Sacred Jedi Texts! "Do"
            These aren't the droids you're looking for.
                The Sacred Jedi Texts! "Don't"
            You have failed me for the last time.
            Do, or do not. There is no try. That's impossible!
                The Sacred Jedi Texts! "Do"
            These aren't the droids you're looking for.
                The Sacred Jedi Texts! "Don't"
            You have failed me for the last time.
            Do, or do not. There is no try. That's impossible!
                The Sacred Jedi Texts! "Do"
            You have failed me for the last time.
            Do, or do not. There is no try. 1
            You have failed me for the last time.
        May The Force be with you.
    "#;
    let done = run(source);
    assert_eq!(done.output, vec!["Do".to_string(), "Don't".to_string()]);
    assert_eq!(done.result, Err(RuntimeError::TypeMismatch));
}

#[test]
fn empty_programs_print_nothing() {
    for source in [
        "",
        "   \n\t ",
        "Do it! May The Force be with you.",
        "Do it!\n Move along. Move along.\n Move along. Move along.\nMay The Force be with you.",
        "Do it!\n |-o-| Goes nnnneeeeeaaaaarrrrr\n :><: Goes pew pew pew\n <(-.-)> Goes hmmm\nMay The Force be with you.",
        "|-o-| nothing but a comment",
    ] {
        let ast = parse(source).unwrap();
        if ast.is_empty() {
            assert_eq!(evaluate(ast).unwrap_err(), RuntimeError::MissingEntry);
        } else {
            assert_eq!(ast, vec![Node::Main(Vec::new())]);
            let done = drive(evaluate(ast).unwrap(), &[]);
            assert_eq!(done.output, Vec::<String>::new());
            assert_eq!(done.requests, 0);
            assert_eq!(done.result, Ok(()));
        }
    }
}

#[test]
fn typed_reads() {
    let source = r#"
        Do it!
            Size matters not. jawa
            Who, mesa? 0.0
            Now this is podracing! jawa
            The Sacred Jedi Texts! jawa

            Yoda. You seek Yoda. ewok
            Who, mesa? ""
            Looking? Found someone, you have, I would say. ewok
            The Sacred Jedi Texts! ewok

            I am the Senate! darkSide
            Who, mesa? From a certain point of view.
            I hope you know what you're doing. darkSide
            The Sacred Jedi Texts! darkSide
        May The Force be with you.
    "#;
    let done = run_with(source, &[" 12.50 ", " Nub Nub ", "false"]);
    assert_eq!(done.result, Ok(()));
    assert_eq!(
        done.output,
        vec!["12.5".to_string(), " Nub Nub ".to_string(), "false".to_string()]
    );
    assert_eq!(run_with(source, &["IX", "", " true"]).output[0], "9");
    assert_eq!(run_with(source, &["twelve"]).result, Err(RuntimeError::InvalidInput));
    assert_eq!(run_with(source, &["1 2"]).result, Err(RuntimeError::InvalidInput));
    assert_eq!(run_with(source, &["1", "x", "yes"]).result, Err(RuntimeError::InvalidInput));
    assert_eq!(run_with(source, &["1", "x"]).result, Err(RuntimeError::EndOfInput));
    assert_eq!(run_with(source, &[]).result, Err(RuntimeError::EndOfInput));
}

#[test]
fn typed_read_needs_a_variable_of_the_kind() {
    let source = r#"
        Do it!
            Now this is podracing! jawa
        May The Force be with you.
    "#;
    assert_eq!(run_with(source, &["1"]).result, Err(RuntimeError::UndeclaredVariable));
    let source = r#"
        Do it!
            Yoda. You seek Yoda. jawa
            Who, mesa? "text"
            Now this is podracing! jawa
        May The Force be with you.
    "#;
    assert_eq!(run_with(source, &["1"]).result, Err(RuntimeError::TypeMismatch));
}

#[test]
fn runtime_errors() {
    let in_main = |body: &str| format!("Do it!\n{}\nMay The Force be with you.", body);
    assert_eq!(
        fails(&in_main("The Sacred Jedi Texts! nobody")),
        RuntimeError::UndeclaredVariable
    );
    assert_eq!(
        fails(&in_main("I have a bad feeling about this. Nothing")),
        RuntimeError::UndeclaredFunction
    );
    assert_eq!(
        fails(&in_main(
            "What a piece of junk! x\nI am your father. \"a\"\nProceed with the countdown. 1\nThe garbage will do."
        )),
        RuntimeError::TypeMismatch
    );
    assert_eq!(
        fails(&in_main(
            "What a piece of junk! x\nI am your father. 1\nThere is another. 2\nThe garbage will do."
        )),
        RuntimeError::TypeMismatch
    );
    assert_eq!(
        fails(&in_main(
            "What a piece of junk! x\nI am your father. 1\nAlways with you it cannot be done.\nThe garbage will do."
        )),
        RuntimeError::TypeMismatch
    );
    assert_eq!(
        fails(&in_main(
            "You're all clear, kid. Now let's blow this thing and go home. 1"
        )),
        RuntimeError::UnexpectedReturn
    );
    let with_function = |function: &str, body: &str| {
        format!(
            "This is where the fun begins. F\n{}\nYou cannot escape your destiny.\n{}",
            function,
            in_main(body)
        )
    };
    let parameter = "Now, that's a name I've not heard in a long time. A long time. p";
    assert_eq!(
        fails(&with_function(parameter, "I have a bad feeling about this. F")),
        RuntimeError::ArityMismatch
    );
    assert_eq!(
        fails(&with_function(
            "",
            "I have a bad feeling about this. F\nI'll try spinning, that's a good trick. 1"
        )),
        RuntimeError::ArityMismatch
    );
    assert_eq!(
        fails(&with_function("", "I have a bad feeling about this. F")),
        RuntimeError::MissingReturn
    );
    assert_eq!(
        fails(&with_function(
            "It's a trap!",
            "Many Bothans died to bring us this information. x\nI have a bad feeling about this. F\nThe garbage will do."
        )),
        RuntimeError::MissingValue
    );
    assert_eq!(
        fails(&with_function(
            "It's a trap!\nYou're all clear, kid. Now let's blow this thing and go home. 1",
            "I have a bad feeling about this. F"
        )),
        RuntimeError::UnexpectedReturn
    );
}

#[test]
fn setup_errors() {
    let main = || Node::Main(Vec::new());
    let function = |name: &str, parameters: Vec<Node>| {
        Node::DeclareFunction(name.to_string(), parameters, Vec::new(), true)
    };
    assert_eq!(evaluate(vec![]).unwrap_err(), RuntimeError::MissingEntry);
    assert_eq!(
        evaluate(vec![function("f", vec![])]).unwrap_err(),
        RuntimeError::MissingEntry
    );
    assert_eq!(evaluate(vec![main(), main()]).unwrap_err(), RuntimeError::DuplicateEntry);
    assert_eq!(
        evaluate(vec![function("f", vec![]), main(), function("f", vec![])]).unwrap_err(),
        RuntimeError::DuplicateFunction
    );
    assert_eq!(
        evaluate(vec![function("f", vec![Node::Noop]), main()]).unwrap_err(),
        RuntimeError::Malformed
    );
    assert_eq!(evaluate(vec![main(), Node::Noop]).unwrap_err(), RuntimeError::Misplaced);
    assert_eq!(
        evaluate(vec![Node::Noop, main(), main()]).unwrap_err(),
        RuntimeError::Misplaced
    );
    let state = evaluate(vec![function("f", vec![]), function("g", vec![]), main()]).unwrap();
    assert_eq!(state.functions.len(), 2);
    assert_eq!(state.stack.len(), 1);
    assert_eq!(state.phase, Phase::Running);
}

#[test]
fn malformed_trees_are_refused_at_run_time() {
    let run_nodes = |body: Vec<Node>| drive(evaluate(vec![Node::Main(body)]).unwrap(), &[]).result;
    let one = || Node::Float(Number::parse("1").unwrap());
    assert_eq!(
        run_nodes(vec![Node::DeclareFloat("x".to_string(), Box::new(Node::Boolean(true)))]),
        Err(RuntimeError::TypeMismatch)
    );
    assert_eq!(
        run_nodes(vec![Node::DeclareString("x".to_string(), Box::new(one()))]),
        Err(RuntimeError::TypeMismatch)
    );
    assert_eq!(
        run_nodes(vec![Node::For(Box::new(one()), Box::new(one()), Vec::new())]),
        Err(RuntimeError::Malformed)
    );
    assert_eq!(
        run_nodes(vec![Node::ReadFloat(Box::new(one()))]),
        Err(RuntimeError::Malformed)
    );
    assert_eq!(
        run_nodes(vec![Node::DeclareFunction("f".to_string(), vec![], vec![], true)]),
        Err(RuntimeError::Malformed)
    );
    assert_eq!(
        run_nodes(vec![Node::Binary(BinaryOperation::Add, Box::new(one()))]),
        Err(RuntimeError::MissingValue)
    );
    assert_eq!(run_nodes(vec![Node::Noop, Node::Main(vec![Node::Noop])]), Ok(()));
}

#[test]
fn replies_must_answer_the_request() {
    let source = "Do it! The Sacred Jedi Texts! 1 May The Force be with you.";
    let mut state = evaluate(parse(source).unwrap()).unwrap();
    assert_eq!(state.step(Reply::Ready), Request::Continue);
    assert_eq!(state.step(Reply::Ready), Request::Continue);
    assert_eq!(state.step(Reply::Ready), Request::Convert(Number::parse("1").unwrap()));
    assert_eq!(state.phase, Phase::AwaitNumber);
    assert_eq!(state.step(Reply::Boolean(true)), Request::Failed(RuntimeError::UnexpectedReply));
    assert_eq!(state.step(Reply::Ready), Request::Failed(RuntimeError::UnexpectedReply));

    let mut state = State::new();
    assert_eq!(state.step(Reply::Number(0)), Request::Failed(RuntimeError::UnexpectedReply));

    let mut state = State::new();
    assert_eq!(state.step(Reply::Ready), Request::Finished);
    assert_eq!(state.step(Reply::Ready), Request::Finished);

    let mut state = State::new();
    state.stack.clear();
    assert_eq!(state.step(Reply::Ready), Request::Failed(RuntimeError::Stuck));
}

#[test]
fn recursion_keeps_frames_apart() {
    let source = r#"
        This is where the fun begins. Down
        Now, that's a name I've not heard in a long time. A long time. n
        It's a trap!
            The Sacred Jedi Texts! n
            Size matters not. zero
            Who, mesa? 0
            What a piece of junk! more
                I am your father. n
                Impressive. Most impressive. zero
            The garbage will do.
            Do, or do not. There is no try. more
                What a piece of junk! less
                    I am your father. n
                    Proceed with the countdown. 1
                The garbage will do.
                I have a bad feeling about this. Down
                I'll try spinning, that's a good trick. less
                The Sacred Jedi Texts! n
            You have failed me for the last time.
        You cannot escape your destiny.

        Do it!
            I have a bad feeling about this. Down
            I'll try spinning, that's a good trick. 2
        May The Force be with you.
    "#;
    assert_eq!(
        lines(source),
        vec!["2".to_string(), "1".to_string(), "0".to_string(), "1".to_string(), "2".to_string()]
    );
}
