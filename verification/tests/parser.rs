use force::ast::{BinaryOperation, Node, UnaryOperation};
use force::number::Number;
use force::parser::parse;

fn num(value: f32) -> Number {
    Number::parse(&format!("{}", value)).unwrap()
}

#[test]
fn hello_there() {
    let source = r#"
        Do it!
            The Sacred Jedi Texts! "Hello there"
        May The Force be with you.
        "#;
    let ast = parse(source);
    assert!(ast.is_ok());

    assert_eq!(
        ast.unwrap(),
        vec![Node::Main(vec!(Node::Print(Box::new(Node::String(
            "Hello there".to_string()
        )))))]
    );
}

#[test]
fn variable() {
    let source = r#"
        Do it!
            Size matters not. jawa
            Who, mesa? -13.2

            The Sacred Jedi Texts! jawa
        May The Force be with you.
        "#;
    let ast = parse(source);
    assert!(ast.is_ok());

    assert_eq!(
        ast.unwrap(),
        vec![Node::Main(vec!(
            Node::DeclareFloat("jawa".to_string(), Box::new(Node::Float(num(-13.2))),),
            Node::Print(Box::new(Node::Variable("jawa".to_string()))),
        ))]
    );

    let source = r#"
        Do it!
            Yoda. You seek Yoda. ewok
            Who, mesa? "Nub Nub"

            The Sacred Jedi Texts! ewok
        May The Force be with you.
        "#;
    let ast = parse(source);
    assert!(ast.is_ok());

    assert_eq!(
        ast.unwrap(),
        vec![Node::Main(vec!(
            Node::DeclareString(
                "ewok".to_string(),
                Box::new(Node::String("Nub Nub".to_string()))
            ),
            Node::Print(Box::new(Node::Variable("ewok".to_string()))),
        ))]
    );

    let source = r#"
        Do it!
            I am the Senate! darkSide
            Who, mesa? From a certain point of view.

            The Sacred Jedi Texts! darkSide
        May The Force be with you.
        "#;
    let ast = parse(source);
    assert!(ast.is_ok());

    assert_eq!(
        ast.unwrap(),
        vec![Node::Main(vec!(
            Node::DeclareBoolean("darkSide".to_string(), Box::new(Node::Boolean(true))),
            Node::Print(Box::new(Node::Variable("darkSide".to_string()))),
        ))]
    );
}

#[test]
fn math() {
    let source = r#"
        Do it!
            Size matters not. porg
            Who, mesa? 4

            What a piece of junk! porg
                I am your father. porg
                Your lightsabers will make a fine addition to my collection. 2.0
                Proceed with the countdown. 1
                There's too many of them! 3
                Not to worry, we are still flying half a ship. 5
                Unlimited power! 2
                Never tell me the odds! 10
                Your lightsabers will make a fine addition to my collection. V
                Proceed with the countdown. II
                There's too many of them! IX
                Not to worry, we are still flying half a ship. IV
                Unlimited power! III
                Never tell me the odds! I
            The garbage will do.

            The Sacred Jedi Texts! porg
        May The Force be with you.
        "#;
    let ast = parse(source);
    assert!(ast.is_ok());

    assert_eq!(
        ast.unwrap(),
        vec![Node::Main(vec!(
            Node::DeclareFloat("porg".to_string(), Box::new(Node::Float(num(4.0)))),
            Node::AssignVariable(
                "porg".to_string(),
                Box::new(Node::Variable("porg".to_string())),
                vec!(
                    Node::Binary(BinaryOperation::Add, Box::new(Node::Float(num(2.0)))),
                    Node::Binary(BinaryOperation::Subtract, Box::new(Node::Float(num(1.0)))),
                    Node::Binary(BinaryOperation::Multiply, Box::new(Node::Float(num(3.0)))),
                    Node::Binary(BinaryOperation::Divide, Box::new(Node::Float(num(5.0)))),
                    Node::Binary(BinaryOperation::Exponent, Box::new(Node::Float(num(2.0)))),
                    Node::Binary(BinaryOperation::Modulus, Box::new(Node::Float(num(10.0)))),
                    Node::Binary(BinaryOperation::Add, Box::new(Node::Float(num(5.0)))),
                    Node::Binary(BinaryOperation::Subtract, Box::new(Node::Float(num(2.0)))),
                    Node::Binary(BinaryOperation::Multiply, Box::new(Node::Float(num(9.0)))),
                    Node::Binary(BinaryOperation::Divide, Box::new(Node::Float(num(4.0)))),
                    Node::Binary(BinaryOperation::Exponent, Box::new(Node::Float(num(3.0)))),
                    Node::Binary(BinaryOperation::Modulus, Box::new(Node::Float(num(1.0)))),
                )
            ),
            Node::Print(Box::new(Node::Variable("porg".to_string()))),
        ))]
    );
}

#[test]
fn equality() {
    let source = r#"
        Do it!
            Size matters not. anakin
            Who, mesa? 27700

            Size matters not. luke
            Who, mesa? 14500

            Size matters not. leia
            Who, mesa? 14500

            I am the Senate! midichlorian
            Who, mesa? That's impossible!

            What a piece of junk! midichlorian
                I am your father. luke
                Impressive. Most impressive. anakin
            The garbage will do.

            The Sacred Jedi Texts! midichlorian

            What a piece of junk! midichlorian
                I am your father. anakin
                There's always a bigger fish. leia
            The garbage will do.

            The Sacred Jedi Texts! midichlorian

            What a piece of junk! midichlorian
                I am your father. leia
                I am a Jedi, like my father before me. luke
            The garbage will do.

            The Sacred Jedi Texts! midichlorian
        May The Force be with you.
        "#;
    let ast = parse(source);
    assert!(ast.is_ok());

    assert_eq!(
        ast.unwrap(),
        vec![Node::Main(vec!(
            Node::DeclareFloat("anakin".to_string(), Box::new(Node::Float(num(27700.0)))),
            Node::DeclareFloat("luke".to_string(), Box::new(Node::Float(num(14500.0)))),
            Node::DeclareFloat("leia".to_string(), Box::new(Node::Float(num(14500.0)))),
            Node::DeclareBoolean("midichlorian".to_string(), Box::new(Node::Boolean(false))),
            Node::AssignVariable(
                "midichlorian".to_string(),
                Box::new(Node::Variable("luke".to_string())),
                vec!(Node::Binary(
                    BinaryOperation::GreaterThan,
                    Box::new(Node::Variable("anakin".to_string()))
                ),)
            ),
            Node::Print(Box::new(Node::Variable("midichlorian".to_string()))),
            Node::AssignVariable(
                "midichlorian".to_string(),
                Box::new(Node::Variable("anakin".to_string())),
                vec!(Node::Binary(
                    BinaryOperation::LessThan,
                    Box::new(Node::Variable("leia".to_string()))
                ),)
            ),
            Node::Print(Box::new(Node::Variable("midichlorian".to_string()))),
            Node::AssignVariable(
                "midichlorian".to_string(),
                Box::new(Node::Variable("leia".to_string())),
                vec!(Node::Binary(
                    BinaryOperation::Equal,
                    Box::new(Node::Variable("luke".to_string()))
                ),)
            ),
            Node::Print(Box::new(Node::Variable("midichlorian".to_string()))),
        ))]
    );
}

#[test]
fn logic() {
    let source = r#"
        Do it!
            I am the Senate! lightside
            Who, mesa? From a certain point of view.

            I am the Senate! darkside
            Who, mesa? That's impossible!

            I am the Senate! revan
            Who, mesa? That's impossible!

            What a piece of junk! revan
                I am your father. lightside
                There is another. darkside
            The garbage will do.

            The Sacred Jedi Texts! revan

            What a piece of junk! revan
                I am your father. revan
                As you wish. lightside
            The garbage will do.

            The Sacred Jedi Texts! revan

            What a piece of junk! revan
                I am your father. revan
                Always with you it cannot be done.
            The garbage will do.

            The Sacred Jedi Texts! revan
        May The Force be with you.
        "#;
    let ast = parse(source);
    assert!(ast.is_ok());

    assert_eq!(
        ast.unwrap(),
        vec![Node::Main(vec!(
            Node::DeclareBoolean("lightside".to_string(), Box::new(Node::Boolean(true))),
            Node::DeclareBoolean("darkside".to_string(), Box::new(Node::Boolean(false))),
            Node::DeclareBoolean("revan".to_string(), Box::new(Node::Boolean(false))),
            Node::AssignVariable(
                "revan".to_string(),
                Box::new(Node::Variable("lightside".to_string())),
                vec!(Node::Binary(
                    BinaryOperation::Or,
                    Box::new(Node::Variable("darkside".to_string()))
                ),)
            ),
            Node::Print(Box::new(Node::Variable("revan".to_string()))),
            Node::AssignVariable(
                "revan".to_string(),
                Box::new(Node::Variable("revan".to_string())),
                vec!(Node::Binary(
                    BinaryOperation::And,
                    Box::new(Node::Variable("lightside".to_string()))
                ),)
            ),
            Node::Print(Box::new(Node::Variable("revan".to_string()))),
            Node::AssignVariable(
                "revan".to_string(),
                Box::new(Node::Variable("revan".to_string())),
                vec!(Node::Unary(UnaryOperation::Not),)
            ),
            Node::Print(Box::new(Node::Variable("revan".to_string()))),
        ))]
    );
}

#[test]
fn while_loop() {
    let source = r#"
        Do it!
            Size matters not. deathStars
            Who, mesa? 3

            Here we go again. deathStars
                The Sacred Jedi Texts! deathStars

                What a piece of junk! deathStars
                    I am your father. deathStars
                    Proceed with the countdown. 1
                The garbage will do.
            Let the past die.
        May The Force be with you.
        "#;
    let ast = parse(source);
    assert!(ast.is_ok());

    assert_eq!(
        ast.unwrap(),
        vec![Node::Main(vec!(
            Node::DeclareFloat("deathStars".to_string(), Box::new(Node::Float(num(3.0)))),
            Node::While(
                Box::new(Node::Variable("deathStars".to_string())),
                vec![
                    Node::Print(Box::new(Node::Variable("deathStars".to_string()))),
                    Node::AssignVariable(
                        "deathStars".to_string(),
                        Box::new(Node::Variable("deathStars".to_string())),
                        vec!(Node::Binary(
                            BinaryOperation::Subtract,
                            Box::new(Node::Float(num(1.0)))
                        ),)
                    )
                ],
            )
        ))]
    );
}

#[test]
fn for_loop() {
    let source = r#"
        Do it!
            Size matters not. deadYounglings
            Who, mesa? 0

            For over a thousand generations. 10
            Let the Wookiee win. deadYounglings
                The Sacred Jedi Texts! deadYounglings
            It is clear to me now the Republic no longer functions.
        May The Force be with you.
        "#;
    let ast = parse(source);
    assert!(ast.is_ok());

    assert_eq!(
        ast.unwrap(),
        vec![Node::Main(vec!(
            Node::DeclareFloat("deadYounglings".to_string(), Box::new(Node::Float(num(0.0)))),
            Node::For(
                Box::new(Node::Float(num(10.0))),
                Box::new(Node::Variable("deadYounglings".to_string())),
                vec!(Node::Print(Box::new(Node::Variable(
                    "deadYounglings".to_string()
                )))),
            )
        ))]
    );

    // For loop with variable
    let source = r#"
        Do it!
            Size matters not. deadYounglings
            Who, mesa? 0

            Size matters not. lightsaberSwings
            Who, mesa? 10

            For over a thousand generations. lightsaberSwings
            Let the Wookiee win. deadYounglings
                The Sacred Jedi Texts! deadYounglings
            It is clear to me now the Republic no longer functions.
        May The Force be with you.
        "#;
    let ast = parse(source);
    assert!(ast.is_ok());

    assert_eq!(
        ast.unwrap(),
        vec![Node::Main(vec!(
            Node::DeclareFloat("deadYounglings".to_string(), Box::new(Node::Float(num(0.0)))),
            Node::DeclareFloat("lightsaberSwings".to_string(), Box::new(Node::Float(num(10.0)))),
            Node::For(
                Box::new(Node::Variable("lightsaberSwings".to_string())),
                Box::new(Node::Variable("deadYounglings".to_string())),
                vec!(Node::Print(Box::new(Node::Variable(
                    "deadYounglings".to_string()
                )))),
            )
        ))]
    );
}

#[test]
fn if_else() {
    let source = r#"
        Do it!
            Do, or do not. There is no try. From a certain point of view.
                The Sacred Jedi Texts! "Do"
            These aren't the droids you're looking for.
                The Sacred Jedi Texts! "Don't"
            You have failed me for the last time.
        May The Force be with you.
        "#;
    let ast = parse(source);
    assert!(ast.is_ok());

    assert_eq!(
        ast.unwrap(),
        vec![Node::Main(vec!(Node::If(
            Box::new(Node::Boolean(true)),
            vec!(Node::Print(Box::new(Node::String("Do".to_string())))),
            vec!(Node::Print(Box::new(Node::String("Don't".to_string()))))
        )))]
    );
}

#[test]
fn functions() {
    let source = r#"
        This is where the fun begins. NameTheSystem
        Now, that's a name I've not heard in a long time. A long time. planet
        It's a trap!
        The Sacred Jedi Texts! "Goodbye"
            The Sacred Jedi Texts! planet
            The Sacred Jedi Texts! "Deathstar noise"
        You cannot escape your destiny.

        Do it!
            I have a bad feeling about this. NameTheSystem
            I'll try spinning, that's a good trick. "Alderaan"
        May The Force be with you.
        "#;
    let ast = parse(source);
    assert!(ast.is_ok());

    assert_eq!(
        ast.unwrap(),
        vec![
            Node::DeclareFunction(
                "NameTheSystem".to_string(),
                vec!(Node::Variable("planet".to_string())),
                vec!(
                    Node::Print(Box::new(Node::String("Goodbye".to_string()))),
                    Node::Print(Box::new(Node::Variable("planet".to_string()))),
                    Node::Print(Box::new(Node::String("Deathstar noise".to_string())))
                ),
                true
            ),
            Node::Main(vec!(Node::CallFunction(
                "NameTheSystem".to_string(),
                vec!(Node::String("Alderaan".to_string()))
            )))
        ]
    );

    let source = r#"
        This is where the fun begins. TheOdds
        Now, that's a name I've not heard in a long time. A long time. odds
            I am the Senate! survive
            Who, mesa? That's impossible!

            What a piece of junk! survive
                I am your father. odds
                Never tell me the odds! 3720
                I am a Jedi, like my father before me. 0
            The garbage will do.

            You're all clear, kid. Now let's blow this thing and go home. survive
        You cannot escape your destiny.

        Do it!
            I am the Senate! survive
            Who, mesa? That's impossible!

            Many Bothans died to bring us this information. survive
                I have a bad feeling about this. TheOdds
                I'll try spinning, that's a good trick. 52
            The garbage will do.

            The Sacred Jedi Texts! survive
        May The Force be with you.
        "#;
    let ast = parse(source);
    assert!(ast.is_ok());

    assert_eq!(
        ast.unwrap(),
        vec![
            Node::DeclareFunction(
                "TheOdds".to_string(),
                vec!(Node::Variable("odds".to_string())),
                vec![
                    Node::DeclareBoolean("survive".to_string(), Box::new(Node::Boolean(false))),
                    Node::AssignVariable(
                        "survive".to_string(),
                        Box::new(Node::Variable("odds".to_string())),
                        vec![
                            Node::Binary(
                                BinaryOperation::Modulus,
                                Box::new(Node::Float(num(3720.0)))
                            ),
                            Node::Binary(BinaryOperation::Equal, Box::new(Node::Float(num(0.0)))),
                        ]
                    ),
                    Node::Return(Box::new(Node::Variable("survive".to_string())))
                ],
                false
            ),
            Node::Main(vec![
                Node::DeclareBoolean("survive".to_string(), Box::new(Node::Boolean(false))),
                Node::AssignVariable(
                    "survive".to_string(),
                    Box::new(Node::CallFunction(
                        "TheOdds".to_string(),
                        vec!(Node::Float(num(52.0)))
                    )),
                    vec!()
                ),
                Node::Print(Box::new(Node::Variable("survive".to_string()))),
            ])
        ]
    );
}

#[test]
fn input() {
    let source = r#"
        Do it!
            Size matters not. jawa
            Who, mesa? 0.0

            Now this is podracing! jawa

            The Sacred Jedi Texts! jawa
        May The Force be with you.
        "#;
    let ast = parse(source);
    assert!(ast.is_ok());

    assert_eq!(
        ast.unwrap(),
        vec![Node::Main(vec![
            Node::DeclareFloat("jawa".to_string(), Box::new(Node::Float(num(0.0)))),
            Node::ReadFloat(Box::new(Node::Variable("jawa".to_string()))),
            Node::Print(Box::new(Node::Variable("jawa".to_string()))),
        ])]
    );

    let source = r#"
        Do it!
            Yoda. You seek Yoda. ewok
            Who, mesa? ""

            Looking? Found someone, you have, I would say. ewok

            The Sacred Jedi Texts! ewok
        May The Force be with you.
        "#;
    let ast = parse(source);
    assert!(ast.is_ok());

    assert_eq!(
        ast.unwrap(),
        vec![Node::Main(vec![
            Node::DeclareString("ewok".to_string(), Box::new(Node::String("".to_string()))),
            Node::ReadString(Box::new(Node::Variable("ewok".to_string()))),
            Node::Print(Box::new(Node::Variable("ewok".to_string()))),
        ])]
    );

    let source = r#"
        Do it!
            I am the Senate! darkSide
            Who, mesa? From a certain point of view.

            I hope you know what you're doing. darkSide

            The Sacred Jedi Texts! darkSide
        May The Force be with you.
        "#;
    let ast = parse(source);
    assert!(ast.is_ok());

    assert_eq!(
        ast.unwrap(),
        vec![Node::Main(vec![
            Node::DeclareBoolean("darkSide".to_string(), Box::new(Node::Boolean(true))),
            Node::ReadBoolean(Box::new(Node::Variable("darkSide".to_string()))),
            Node::Print(Box::new(Node::Variable("darkSide".to_string()))),
        ])]
    );
}

#[test]
fn other() {
    let source = r#"
        Do it!
        May The Force be with you.
        "#;
    let ast = parse(source);
    assert!(ast.is_ok());

    assert_eq!(ast.unwrap(), vec!(Node::Main(Vec::new())));

    let source = r#"
        Do it!
            Move along. Move along.
        May The Force be with you.
        "#;
    let ast = parse(source);
    assert!(ast.is_ok());

    assert_eq!(ast.unwrap(), vec!(Node::Main(Vec::new())));

    let source = r#"
        "#;
    let ast = parse(source);
    assert!(ast.is_ok());

    assert_eq!(ast.unwrap(), vec!());

    let source = r#"
        Do it!
            |-o-| Goes nnnneeeeeaaaaarrrrr
            :><: Goes pew pew pew
            <(-.-)> Goes hmmm
        May The Force be with you.
        "#;
    let ast = parse(source);
    assert!(ast.is_ok());
}

#[test]
fn error_type() {
    let source = r#"
        Do it!
            Size matters not. binks
            Who, mesa? "Jar Jar"
        May The Force be with you.
        "#;
    let ast = parse(source);
    assert!(ast.is_err());

    let source = r#"
        Do it!
            Size matters not. holidaySpecial
            Who, mesa? From a certain point of view.
        May The Force be with you.
        "#;
    let ast = parse(source);
    assert!(ast.is_err());

    let source = r#"
        Do it!
            I am the Senate! lifeDay
            Who, mesa? -12.9
        May The Force be with you.
        "#;
    let ast = parse(source);
    assert!(ast.is_err());
}
