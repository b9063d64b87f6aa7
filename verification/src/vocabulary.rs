//! The fixed phrases of the language.
use vstd::prelude::*;

verus! {

/// One phrase of the language's closed vocabulary.
#[derive(Debug, Clone, Copy, PartialEq, Eq, Structural)]
pub enum Keyword {
    /// Opens the entry point.
    Main,
    /// Closes the entry point.
    EndMain,
    /// Opens a function declaration; the function's name follows.
    Function,
    /// Introduces one parameter of a function; its name follows.
    Parameter,
    /// Marks a function that returns nothing.
    Void,
    /// Closes a function declaration.
    EndFunction,
    /// Calls a function; its name follows.
    Call,
    /// Introduces one argument of a call; its value follows.
    Argument,
    /// Opens an assignment from a function call; the target's name follows.
    Capture,
    /// Returns a value.
    Return,
    /// Prints a value.
    Print,
    /// Declares a numeric variable.
    DeclareFloat,
    /// Declares a string variable.
    DeclareString,
    /// Declares a boolean variable.
    DeclareBoolean,
    /// Introduces the initial value of a declaration.
    Initial,
    /// Opens an assignment; the target's name follows.
    Assign,
    /// Introduces the first value of an assignment.
    First,
    /// Closes an assignment.
    EndAssign,
    /// Addition.
    Add,
    /// Subtraction.
    Subtract,
    /// Multiplication.
    Multiply,
    /// Division.
    Divide,
    /// Exponentiation.
    Exponent,
    /// Remainder.
    Modulus,
    /// Equality.
    Equal,
    /// Greater than.
    GreaterThan,
    /// Less than.
    LessThan,
    /// Logical or.
    Or,
    /// Logical and.
    And,
    /// Logical negation.
    Not,
    /// Opens a condition loop; the condition follows.
    While,
    /// Closes a condition loop.
    EndWhile,
    /// Opens a counted loop; the count follows.
    For,
    /// Introduces the loop variable of a counted loop.
    Counter,
    /// Closes a counted loop.
    EndFor,
    /// Opens a conditional; the condition follows.
    If,
    /// Separates the two branches of a conditional.
    Else,
    /// Closes a conditional.
    EndIf,
    /// Reads a number into a variable.
    ReadFloat,
    /// Reads a line of text into a variable.
    ReadString,
    /// Reads a boolean into a variable.
    ReadBoolean,
    /// Does nothing.
    Noop,
    /// The boolean literal for truth.
    True,
    /// The boolean literal for falsehood.
    False,
}

/// The text of a phrase, as it stands in a source.
pub open spec fn spec_phrase(k: Keyword) -> Seq<char> {
    match k {
        Keyword::Main => "Do it!"@,
        Keyword::EndMain => "May The Force be with you."@,
        Keyword::Function => "This is where the fun begins."@,
        Keyword::Parameter => "Now, that's a name I've not heard in a long time. A long time."@,
        Keyword::Void => "It's a trap!"@,
        Keyword::EndFunction => "You cannot escape your destiny."@,
        Keyword::Call => "I have a bad feeling about this."@,
        Keyword::Argument => "I'll try spinning, that's a good trick."@,
        Keyword::Capture => "Many Bothans died to bring us this information."@,
        Keyword::Return => "You're all clear, kid. Now let's blow this thing and go home."@,
        Keyword::Print => "The Sacred Jedi Texts!"@,
        Keyword::DeclareFloat => "Size matters not."@,
        Keyword::DeclareString => "Yoda. You seek Yoda."@,
        Keyword::DeclareBoolean => "I am the Senate!"@,
        Keyword::Initial => "Who, mesa?"@,
        Keyword::Assign => "What a piece of junk!"@,
        Keyword::First => "I am your father."@,
        Keyword::EndAssign => "The garbage will do."@,
        Keyword::Add => "Your lightsabers will make a fine addition to my collection."@,
        Keyword::Subtract => "Proceed with the countdown."@,
        Keyword::Multiply => "There's too many of them!"@,
        Keyword::Divide => "Not to worry, we are still flying half a ship."@,
        Keyword::Exponent => "Unlimited power!"@,
        Keyword::Modulus => "Never tell me the odds!"@,
        Keyword::Equal => "I am a Jedi, like my father before me."@,
        Keyword::GreaterThan => "Impressive. Most impressive."@,
        Keyword::LessThan => "There's always a bigger fish."@,
        Keyword::Or => "There is another."@,
        Keyword::And => "As you wish."@,
        Keyword::Not => "Always with you it cannot be done."@,
        Keyword::While => "Here we go again."@,
        Keyword::EndWhile => "Let the past die."@,
        Keyword::For => "For over a thousand generations."@,
        Keyword::Counter => "Let the Wookiee win."@,
        Keyword::EndFor => "It is clear to me now the Republic no longer functions."@,
        Keyword::If => "Do, or do not. There is no try."@,
        Keyword::Else => "These aren't the droids you're looking for."@,
        Keyword::EndIf => "You have failed me for the last time."@,
        Keyword::ReadFloat => "Now this is podracing!"@,
        Keyword::ReadString => "Looking? Found someone, you have, I would say."@,
        Keyword::ReadBoolean => "I hope you know what you're doing."@,
        Keyword::Noop => "Move along. Move along."@,
        Keyword::True => "From a certain point of view."@,
        Keyword::False => "That's impossible!"@,
    }
}

pub fn phrase(k: Keyword) -> (r: &'static str)
    ensures
        r@ == spec_phrase(k),
{
    match k {
        Keyword::Main => "Do it!",
        Keyword::EndMain => "May The Force be with you.",
        Keyword::Function => "This is where the fun begins.",
        Keyword::Parameter => "Now, that's a name I've not heard in a long time. A long time.",
        Keyword::Void => "It's a trap!",
        Keyword::EndFunction => "You cannot escape your destiny.",
        Keyword::Call => "I have a bad feeling about this.",
        Keyword::Argument => "I'll try spinning, that's a good trick.",
        Keyword::Capture => "Many Bothans died to bring us this information.",
        Keyword::Return => "You're all clear, kid. Now let's blow this thing and go home.",
        Keyword::Print => "The Sacred Jedi Texts!",
        Keyword::DeclareFloat => "Size matters not.",
        Keyword::DeclareString => "Yoda. You seek Yoda.",
        Keyword::DeclareBoolean => "I am the Senate!",
        Keyword::Initial => "Who, mesa?",
        Keyword::Assign => "What a piece of junk!",
        Keyword::First => "I am your father.",
        Keyword::EndAssign => "The garbage will do.",
        Keyword::Add => "Your lightsabers will make a fine addition to my collection.",
        Keyword::Subtract => "Proceed with the countdown.",
        Keyword::Multiply => "There's too many of them!",
        Keyword::Divide => "Not to worry, we are still flying half a ship.",
        Keyword::Exponent => "Unlimited power!",
        Keyword::Modulus => "Never tell me the odds!",
        Keyword::Equal => "I am a Jedi, like my father before me.",
        Keyword::GreaterThan => "Impressive. Most impressive.",
        Keyword::LessThan => "There's always a bigger fish.",
        Keyword::Or => "There is another.",
        Keyword::And => "As you wish.",
        Keyword::Not => "Always with you it cannot be done.",
        Keyword::While => "Here we go again.",
        Keyword::EndWhile => "Let the past die.",
        Keyword::For => "For over a thousand generations.",
        Keyword::Counter => "Let the Wookiee win.",
        Keyword::EndFor => "It is clear to me now the Republic no longer functions.",
        Keyword::If => "Do, or do not. There is no try.",
        Keyword::Else => "These aren't the droids you're looking for.",
        Keyword::EndIf => "You have failed me for the last time.",
        Keyword::ReadFloat => "Now this is podracing!",
        Keyword::ReadString => "Looking? Found someone, you have, I would say.",
        Keyword::ReadBoolean => "I hope you know what you're doing.",
        Keyword::Noop => "Move along. Move along.",
        Keyword::True => "From a certain point of view.",
        Keyword::False => "That's impossible!",
    }
}

} // verus!
