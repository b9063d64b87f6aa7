use force::ast::{duplicate_all, BinaryOperation, Node, UnaryOperation};
use force::number::{digit_char, digit_value, Number};
use force::parser::{build_string, describe, locate, parse, Expected, SyntaxError};
use force::text::{at, skip, to_chars};
use force::vocabulary::{phrase, Keyword};

fn in_main(body: &str) -> String {
    format!("Do it!\n{}\nMay The Force be with you.", body)
}

fn error_of(source: &str) -> SyntaxError {
    parse(source).unwrap_err()
}

fn body_of(source: &str) -> Vec<Node> {
    match parse(&in_main(source)).unwrap().pop() {
        Some(Node::Main(body)) => body,
        other => panic!("no entry point: {:?}", other),
    }
}

fn number(text: &str) -> Node {
    Node::Float(Number::parse(text).unwrap())
}

#[test]
fn numerals_are_canonical() {
    let parsed = |text: &str| Number::parse(text).unwrap();
    assert_eq!(parsed("-13.2"), Number { negative: true, digits: vec![1, 3, 2], scale: 1 });
    assert_eq!(parsed("2.0"), Number { negative: false, digits: vec![2], scale: 0 });
    assert_eq!(parsed("2.0"), parsed("2"));
    assert_eq!(parsed("0007.2500"), parsed("7.25"));
    assert_eq!(parsed("0.050"), Number { negative: false, digits: vec![0, 5], scale: 2 });
    assert_eq!(parsed("0"), Number { negative: false, digits: vec![], scale: 0 });
    assert_eq!(parsed("0.0"), parsed("0"));
    assert_eq!(parsed("-0"), Number { negative: true, digits: vec![], scale: 0 });
    assert_eq!(parsed("27700"), Number { negative: false, digits: vec![2, 7, 7, 0, 0], scale: 0 });
    assert_eq!(parsed("  12 \t"), parsed("12"));
    for (word, value) in [
        ("I", 1),
        ("II", 2),
        ("III", 3),
        ("IV", 4),
        ("V", 5),
        ("VI", 6),
        ("VII", 7),
        ("VIII", 8),
        ("IX", 9),
    ] {
        assert_eq!(parsed(word), Number { negative: false, digits: vec![value], scale: 0 });
    }
    for text in [
        "", " ", "-", ".5", "5.", "1e5", "1 2", "X", "IIII", "IXI", "VX", "+1", "--1", "1.2.3",
        "0x10",
    ] {
        assert_eq!(Number::parse(text), None, "{:?}", text);
    }
}

#[test]
fn numerals_have_a_text() {
    for (given, text) in [
        ("-13.2", "-13.2"),
        ("2.0", "2"),
        ("0007.2500", "7.25"),
        ("0.050", "0.05"),
        ("0", "0"),
        ("-0", "-0"),
        ("-0.5", "-0.5"),
        ("340282350000000000000000000000000000000", "340282350000000000000000000000000000000"),
        ("IX", "9"),
    ] {
        let parsed = Number::parse(given).unwrap();
        assert_eq!(parsed.text(), text);
        assert_eq!(Number::parse(&parsed.text()), Some(parsed.duplicate()));
        assert_eq!(parsed.duplicate(), parsed);
    }
    assert_eq!(Number { negative: false, digits: vec![5], scale: 3 }.text(), "0.005");
    assert_eq!(Number { negative: true, digits: vec![1, 2], scale: 2 }.text(), "-0.12");
}

#[test]
fn numerals_of_indices() {
    assert_eq!(Number::from_index(0), Number { negative: false, digits: vec![], scale: 0 });
    assert_eq!(Number::from_index(7).text(), "7");
    assert_eq!(Number::from_index(10).digits, vec![1, 0]);
    assert_eq!(Number::from_index(1234567890).text(), "1234567890");
    assert_eq!(
        Number::from_index(u128::MAX).text(),
        "340282366920938463463374607431768211455"
    );
    for index in 0..2000u128 {
        assert_eq!(Number::from_index(index).text(), format!("{}", index));
    }
}

#[test]
fn digits_and_characters() {
    for (value, character) in ('0'..='9').enumerate() {
        assert_eq!(digit_value(character), value as u8);
        assert_eq!(digit_char(value as u8), character);
    }
}

#[test]
fn words_and_blanks() {
    let source = to_chars("  Do it! |-o-| note\n\t:><: more\n <(-.-)> x\n  end");
    assert_eq!(skip(&source, 0), 2);
    assert_eq!(at(&source, 2, "Do it!"), Some(8));
    assert_eq!(at(&source, 2, "Do it?"), None);
    assert_eq!(at(&source, 3, "Do it!"), None);
    assert_eq!(at(&source, source.len(), ""), Some(source.len()));
    assert_eq!(at(&source, source.len() - 2, "end"), None);
    assert_eq!(skip(&source, 8), source.len() - 3);
    assert_eq!(skip(&source, source.len()), source.len());
    assert_eq!(phrase(Keyword::Main), "Do it!");
    assert_eq!(phrase(Keyword::EndMain), "May The Force be with you.");
    assert_eq!(to_chars("añb"), vec!['a', 'ñ', 'b']);
}

#[test]
fn string_literals() {
    let built = |text: &str| build_string(&to_chars(text), 0);
    assert_eq!(built("plain\" rest"), Ok(("plain".to_string(), 6)));
    assert_eq!(built("\""), Ok((String::new(), 1)));
    assert_eq!(
        built(r#"a\"b\\c\/d\ne\rf\tg" "#),
        Ok(("a\"b\\c/d\ne\rf\tg".to_string(), 20))
    );
    assert_eq!(built("añb\""), Ok(("añb".to_string(), 4)));
    assert_eq!(built("two\nlines\""), Ok(("two\nlines".to_string(), 10)));
    assert_eq!(built("open"), Err(SyntaxError { offset: 4, expected: Expected::Quote }));
    assert_eq!(built(""), Err(SyntaxError { offset: 0, expected: Expected::Quote }));
    assert_eq!(built(r#"a\qb""#), Err(SyntaxError { offset: 1, expected: Expected::Escape }));
    assert_eq!(built("a\\"), Err(SyntaxError { offset: 1, expected: Expected::Escape }));
    assert_eq!(
        body_of(r#"The Sacred Jedi Texts! "The Sacred Jedi Texts! |-o-| \"x\"""#),
        vec![Node::Print(Box::new(Node::String(
            "The Sacred Jedi Texts! |-o-| \"x\"".to_string()
        )))]
    );
}

#[test]
fn values_in_order_of_kinds() {
    assert_eq!(
        body_of(
            r#"
            The Sacred Jedi Texts! V
            The Sacred Jedi Texts! Vader
            The Sacred Jedi Texts! I_am
            The Sacred Jedi Texts! _x1
            The Sacred Jedi Texts! That's impossible!
            The Sacred Jedi Texts! -0.50
            "#
        ),
        vec![
            Node::Print(Box::new(number("5"))),
            Node::Print(Box::new(Node::Variable("Vader".to_string()))),
            Node::Print(Box::new(Node::Variable("I_am".to_string()))),
            Node::Print(Box::new(Node::Variable("_x1".to_string()))),
            Node::Print(Box::new(Node::Boolean(false))),
            Node::Print(Box::new(number("-0.5"))),
        ]
    );
}

#[test]
fn statements_of_every_kind() {
    let body = body_of(
        r#"
        I have a bad feeling about this. Plain
        I have a bad feeling about this. Two
        I'll try spinning, that's a good trick. 1
        I'll try spinning, that's a good trick. x
        You're all clear, kid. Now let's blow this thing and go home. "out"
        What a piece of junk! y
            I am your father. From a certain point of view.
        The garbage will do.
        Do, or do not. There is no try. y
        You have failed me for the last time.
        Do, or do not. There is no try. y
        These aren't the droids you're looking for.
            Move along. Move along.
            Here we go again. y
                For over a thousand generations. II
                Let the Wookiee win. i
                It is clear to me now the Republic no longer functions.
            Let the past die.
        You have failed me for the last time.
        "#,
    );
    assert_eq!(
        body,
        vec![
            Node::CallFunction("Plain".to_string(), vec![]),
            Node::CallFunction(
                "Two".to_string(),
                vec![number("1"), Node::Variable("x".to_string())]
            ),
            Node::Return(Box::new(Node::String("out".to_string()))),
            Node::AssignVariable("y".to_string(), Box::new(Node::Boolean(true)), vec![]),
            Node::If(Box::new(Node::Variable("y".to_string())), vec![], vec![]),
            Node::If(
                Box::new(Node::Variable("y".to_string())),
                vec![],
                vec![Node::While(
                    Box::new(Node::Variable("y".to_string())),
                    vec![Node::For(
                        Box::new(number("2")),
                        Box::new(Node::Variable("i".to_string())),
                        vec![]
                    )]
                )]
            ),
        ]
    );
    assert_eq!(duplicate_all(&body), body);
    assert_eq!(body[5].duplicate(), body[5]);
}

#[test]
fn functions_come_before_the_entry_point() {
    let source = r#"
        This is where the fun begins. None
        You cannot escape your destiny.
        This is where the fun begins. Two
        Now, that's a name I've not heard in a long time. A long time. a
        Now, that's a name I've not heard in a long time. A long time. b
        It's a trap!
        You cannot escape your destiny.
        Do it!
        May The Force be with you.
        |-o-| the end
    "#;
    assert_eq!(
        parse(source).unwrap(),
        vec![
            Node::DeclareFunction("None".to_string(), vec![], vec![], false),
            Node::DeclareFunction(
                "Two".to_string(),
                vec![Node::Variable("a".to_string()), Node::Variable("b".to_string())],
                vec![],
                true
            ),
            Node::Main(vec![]),
        ]
    );
}

#[test]
fn every_operation() {
    let body = body_of(
        r#"
        What a piece of junk! x
            I am your father. 1
            Always with you it cannot be done.
            I am a Jedi, like my father before me. 2
            Impressive. Most impressive. 3
            There's always a bigger fish. 4
            There is another. a
            As you wish. "b"
        The garbage will do.
        "#,
    );
    assert_eq!(
        body,
        vec![Node::AssignVariable(
            "x".to_string(),
            Box::new(number("1")),
            vec![
                Node::Unary(UnaryOperation::Not),
                Node::Binary(BinaryOperation::Equal, Box::new(number("2"))),
                Node::Binary(BinaryOperation::GreaterThan, Box::new(number("3"))),
                Node::Binary(BinaryOperation::LessThan, Box::new(number("4"))),
                Node::Binary(BinaryOperation::Or, Box::new(Node::Variable("a".to_string()))),
                Node::Binary(BinaryOperation::And, Box::new(Node::String("b".to_string()))),
            ]
        )]
    );
}

#[test]
fn what_was_expected_and_where() {
    let function = "This is where the fun begins. F ";
    let cases: Vec<(String, usize, Expected)> = vec![
        ("hello".to_string(), 0, Expected::Entry),
        ("  May The Force be with you.".to_string(), 2, Expected::Entry),
        (format!("{}You cannot escape your destiny.", function), 63, Expected::Entry),
        ("Do it!".to_string(), 6, Expected::Phrase(Keyword::EndMain)),
        ("Do it! what".to_string(), 7, Expected::Phrase(Keyword::EndMain)),
        (format!("{} {}", in_main(""), in_main("")), 35, Expected::End),
        (in_main("The Sacred Jedi Texts!"), 34, Expected::Phrase(Keyword::EndMain)),
        (in_main("The Sacred Jedi Texts! ?"), 30, Expected::Value),
        (in_main("Size matters not. 5"), 25, Expected::Name),
        (in_main("Size matters not. x 5"), 27, Expected::Phrase(Keyword::Initial)),
        (in_main("Size matters not. x Who, mesa? \"5\""), 38, Expected::Number),
        (in_main("Size matters not. x Who, mesa? y"), 38, Expected::Number),
        (in_main("Size matters not. x Who, mesa? That's impossible!"), 38, Expected::Number),
        (in_main("Yoda. You seek Yoda. x Who, mesa? 5"), 41, Expected::Text),
        (in_main("I am the Senate! x Who, mesa? \"true\""), 37, Expected::Boolean),
        (in_main("I am the Senate! x Who, mesa? -12.9"), 37, Expected::Boolean),
        (in_main("The Sacred Jedi Texts! \"open"), 62, Expected::Quote),
        (in_main("The Sacred Jedi Texts! \"a\\x\""), 32, Expected::Escape),
        (
            in_main("What a piece of junk! x The garbage will do."),
            31,
            Expected::Phrase(Keyword::First),
        ),
        (
            in_main("What a piece of junk! x I am your father. 1 Proceed with the countdown. ?"),
            79,
            Expected::Value,
        ),
        (
            in_main("What a piece of junk! x I am your father. 1 2 The garbage will do."),
            51,
            Expected::Phrase(Keyword::EndAssign),
        ),
        (
            in_main("Many Bothans died to bring us this information. x 1"),
            57,
            Expected::Phrase(Keyword::Call),
        ),
        (in_main("Here we go again. x"), 27, Expected::Phrase(Keyword::EndWhile)),
        (
            in_main("For over a thousand generations. 3 i"),
            42,
            Expected::Phrase(Keyword::Counter),
        ),
        (
            in_main("For over a thousand generations. 3 Let the Wookiee win. i"),
            65,
            Expected::Phrase(Keyword::EndFor),
        ),
        (
            in_main("Do, or do not. There is no try. x These aren't the droids you're looking for."),
            85,
            Expected::Phrase(Keyword::EndIf),
        ),
        (
            format!("{}{}", function, in_main("")),
            32,
            Expected::Phrase(Keyword::EndFunction),
        ),
        (
            format!(
                "{}Now, that's a name I've not heard in a long time. A long time. 1",
                function
            ),
            95,
            Expected::Name,
        ),
    ];
    let mut wrong = String::new();
    for (index, (source, offset, expected)) in cases.into_iter().enumerate() {
        let error = error_of(&source);
        if error != (SyntaxError { offset, expected }) {
            wrong += &format!("{}:{},{:?} ", index, error.offset, error.expected);
        }
    }
    assert_eq!(wrong, "");
}

#[test]
fn places_and_descriptions() {
    let source = "ab\ncd\n\nefg";
    assert_eq!(locate(source, 0), (0, 0));
    assert_eq!(locate(source, 1), (0, 1));
    assert_eq!(locate(source, 2), (0, 2));
    assert_eq!(locate(source, 3), (1, 0));
    assert_eq!(locate(source, 6), (2, 0));
    assert_eq!(locate(source, 7), (3, 0));
    assert_eq!(locate(source, 10), (3, 3));
    assert_eq!(locate(source, 99), (3, 3));
    assert_eq!(locate("", 0), (0, 0));
    let source = "Do it!\n  The Sacred Jedi Texts! \"x\"\n  oops\nMay The Force be with you.";
    let error = error_of(source);
    assert_eq!(error.expected, Expected::Phrase(Keyword::EndMain));
    assert_eq!(locate(source, error.offset), (2, 2));
    assert_eq!(describe(error.expected), "May The Force be with you.");
    assert_eq!(describe(Expected::Number), "a numeric literal");
    assert_eq!(describe(Expected::Text), "a string literal");
    assert_eq!(describe(Expected::Boolean), "a boolean literal");
    assert_eq!(describe(Expected::Name), "a name");
    assert_eq!(describe(Expected::Value), "a value");
    assert_eq!(describe(Expected::Quote), "the closing quote of a string literal");
    assert_eq!(describe(Expected::Escape), "an escape sequence");
    assert_eq!(describe(Expected::End), "the end of the source");
    assert_eq!(
        describe(Expected::Entry),
        "a function, the entry point, or the end of the source"
    );
}
