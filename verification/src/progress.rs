//! Every construct of the grammar takes up at least one character.
//!
//! The lists and blocks of the grammar go on only from a position that
//! lies behind the one they started from. The laws of this file show that
//! this is always the case, so that a list never ends, and a block is
//! never empty, for want of progress.
use vstd::prelude::*;
use crate::ast::NodeView;
use crate::number::{spec_decimal, spec_digits_end, spec_numeral};
use crate::parser::{spec_advances, spec_arguments, spec_assignment, spec_block, spec_boolean,
    spec_call, spec_capture, spec_conditional, spec_counted, spec_declaration, spec_demand,
    spec_function, spec_loop, spec_name, spec_number, spec_operation, spec_operations,
    spec_operator, spec_parameters, spec_simple, spec_statement, spec_statements, spec_text,
    spec_text_rest, spec_value, spec_variable, spec_word};
use crate::text::{spec_name_end, spec_skip_from};
use crate::vocabulary::{spec_phrase, Keyword};

verus! {

/// Skipping blanks and comments never goes back, and stays inside the
/// source.
pub proof fn lemma_skip_bounds(s: Seq<char>, pos: int, in_comment: bool)
    requires
        0 <= pos <= s.len(),
    ensures
        pos <= spec_skip_from(s, pos, in_comment) <= s.len(),
    decreases s.len() - pos,
{
    if pos < s.len() {
        lemma_skip_bounds(s, pos + 1, true);
        lemma_skip_bounds(s, pos + 1, false);
    }
}

/// No phrase is empty.
pub proof fn lemma_phrase_is_not_empty(k: Keyword)
    ensures
        spec_phrase(k).len() > 0,
{
    reveal_strlit("Do it!");
    reveal_strlit("May The Force be with you.");
    reveal_strlit("This is where the fun begins.");
    reveal_strlit("Now, that's a name I've not heard in a long time. A long time.");
    reveal_strlit("It's a trap!");
    reveal_strlit("You cannot escape your destiny.");
    reveal_strlit("I have a bad feeling about this.");
    reveal_strlit("I'll try spinning, that's a good trick.");
    reveal_strlit("Many Bothans died to bring us this information.");
    reveal_strlit("You're all clear, kid. Now let's blow this thing and go home.");
    reveal_strlit("The Sacred Jedi Texts!");
    reveal_strlit("Size matters not.");
    reveal_strlit("Yoda. You seek Yoda.");
    reveal_strlit("I am the Senate!");
    reveal_strlit("Who, mesa?");
    reveal_strlit("What a piece of junk!");
    reveal_strlit("I am your father.");
    reveal_strlit("The garbage will do.");
    reveal_strlit("Your lightsabers will make a fine addition to my collection.");
    reveal_strlit("Proceed with the countdown.");
    reveal_strlit("There's too many of them!");
    reveal_strlit("Not to worry, we are still flying half a ship.");
    reveal_strlit("Unlimited power!");
    reveal_strlit("Never tell me the odds!");
    reveal_strlit("I am a Jedi, like my father before me.");
    reveal_strlit("Impressive. Most impressive.");
    reveal_strlit("There's always a bigger fish.");
    reveal_strlit("There is another.");
    reveal_strlit("As you wish.");
    reveal_strlit("Always with you it cannot be done.");
    reveal_strlit("Here we go again.");
    reveal_strlit("Let the past die.");
    reveal_strlit("For over a thousand generations.");
    reveal_strlit("Let the Wookiee win.");
    reveal_strlit("It is clear to me now the Republic no longer functions.");
    reveal_strlit("Do, or do not. There is no try.");
    reveal_strlit("These aren't the droids you're looking for.");
    reveal_strlit("You have failed me for the last time.");
    reveal_strlit("Now this is podracing!");
    reveal_strlit("Looking? Found someone, you have, I would say.");
    reveal_strlit("I hope you know what you're doing.");
    reveal_strlit("Move along. Move along.");
    reveal_strlit("From a certain point of view.");
    reveal_strlit("That's impossible!");
}

/// A phrase takes up at least one character.
pub proof fn lemma_word_advances(s: Seq<char>, pos: int, k: Keyword)
    requires
        spec_word(s, pos, k) is Some,
    ensures
        spec_advances(s, pos, spec_word(s, pos, k).unwrap()),
{
    lemma_phrase_is_not_empty(k);
    lemma_skip_bounds(s, pos + spec_phrase(k).len(), false);
}

proof fn lemma_demand_advances(s: Seq<char>, pos: int, k: Keyword)
    requires
        spec_demand(s, pos, k) is Ok,
    ensures
        spec_advances(s, pos, spec_demand(s, pos, k).unwrap()),
{
    lemma_word_advances(s, pos, k);
}

proof fn lemma_name_end_bounds(s: Seq<char>, pos: int)
    requires
        0 <= pos <= s.len(),
    ensures
        pos <= spec_name_end(s, pos) <= s.len(),
    decreases s.len() - pos,
{
    if pos < s.len() {
        lemma_name_end_bounds(s, pos + 1);
    }
}

/// A name takes up at least one character.
pub proof fn lemma_name_advances(s: Seq<char>, pos: int)
    requires
        spec_name(s, pos) is Ok,
    ensures
        spec_advances(s, pos, spec_name(s, pos).unwrap().1),
{
    lemma_name_end_bounds(s, pos + 1);
    lemma_skip_bounds(s, spec_name_end(s, pos), false);
}

proof fn lemma_text_rest_bounds(s: Seq<char>, pos: int, done: Seq<char>)
    requires
        0 <= pos <= s.len(),
        spec_text_rest(s, pos, done) is Ok,
    ensures
        pos < spec_text_rest(s, pos, done).unwrap().1 <= s.len(),
    decreases s.len() - pos,
{
    if pos < s.len() && s[pos] != '"' {
        if s[pos] == '\\' {
            lemma_text_rest_bounds(
                s,
                pos + 2,
                done.push(crate::parser::spec_escape(s[pos + 1]).unwrap()),
            );
        } else {
            lemma_text_rest_bounds(s, pos + 1, done.push(s[pos]));
        }
    }
}

proof fn lemma_digits_end_bounds(s: Seq<char>, pos: int)
    requires
        0 <= pos <= s.len(),
    ensures
        pos <= spec_digits_end(s, pos) <= s.len(),
    decreases s.len() - pos,
{
    if pos < s.len() {
        lemma_digits_end_bounds(s, pos + 1);
    }
}

/// A numeric literal takes up at least one character.
pub proof fn lemma_numeral_advances(s: Seq<char>, pos: int)
    requires
        0 <= pos <= s.len(),
        spec_numeral(s, pos) is Some,
    ensures
        spec_advances(s, pos, spec_numeral(s, pos).unwrap().1),
{
    if spec_decimal(s, pos) is Some {
        let negative = pos < s.len() && s[pos] == '-';
        let start = if negative {
            pos + 1
        } else {
            pos
        };
        lemma_digits_end_bounds(s, start);
        let whole_end = spec_digits_end(s, start);
        if whole_end < s.len() {
            lemma_digits_end_bounds(s, whole_end + 1);
        }
    } else {
        reveal_strlit("IX");
        reveal_strlit("VIII");
        reveal_strlit("VII");
        reveal_strlit("VI");
        reveal_strlit("V");
        reveal_strlit("IV");
        reveal_strlit("III");
        reveal_strlit("II");
        reveal_strlit("I");
    }
}

/// A value takes up at least one character.
pub proof fn lemma_value_advances(s: Seq<char>, pos: int)
    requires
        0 <= pos <= s.len(),
        spec_value(s, pos) is Ok,
    ensures
        spec_advances(s, pos, spec_value(s, pos).unwrap().1),
{
    if pos < s.len() && s[pos] == '"' {
        lemma_text_rest_bounds(s, pos + 1, Seq::empty());
        lemma_skip_bounds(s, spec_text_rest(s, pos + 1, Seq::empty()).unwrap().1, false);
    } else if spec_boolean(s, pos) is Ok {
        lemma_boolean_advances(s, pos);
    } else if spec_number(s, pos) is Ok {
        lemma_number_advances(s, pos);
    } else {
        lemma_name_advances(s, pos);
    }
}

proof fn lemma_boolean_advances(s: Seq<char>, pos: int)
    requires
        spec_boolean(s, pos) is Ok,
    ensures
        spec_advances(s, pos, spec_boolean(s, pos).unwrap().1),
{
    if spec_word(s, pos, Keyword::True) is Some {
        lemma_word_advances(s, pos, Keyword::True);
    } else {
        lemma_word_advances(s, pos, Keyword::False);
    }
}

proof fn lemma_number_advances(s: Seq<char>, pos: int)
    requires
        0 <= pos <= s.len(),
        spec_number(s, pos) is Ok,
    ensures
        spec_advances(s, pos, spec_number(s, pos).unwrap().1),
{
    lemma_numeral_advances(s, pos);
    lemma_skip_bounds(s, spec_numeral(s, pos).unwrap().1, false);
}

proof fn lemma_text_advances(s: Seq<char>, pos: int)
    requires
        0 <= pos <= s.len(),
        spec_text(s, pos) is Ok,
    ensures
        spec_advances(s, pos, spec_text(s, pos).unwrap().1),
{
    lemma_text_rest_bounds(s, pos + 1, Seq::empty());
    lemma_skip_bounds(s, spec_text_rest(s, pos + 1, Seq::empty()).unwrap().1, false);
}

proof fn lemma_operator_advances(s: Seq<char>, pos: int)
    requires
        spec_operator(s, pos) is Some,
    ensures
        spec_advances(s, pos, spec_operator(s, pos).unwrap().1),
{
    if spec_word(s, pos, Keyword::Add) is Some {
        lemma_word_advances(s, pos, Keyword::Add);
    }
    if spec_word(s, pos, Keyword::Subtract) is Some {
        lemma_word_advances(s, pos, Keyword::Subtract);
    }
    if spec_word(s, pos, Keyword::Multiply) is Some {
        lemma_word_advances(s, pos, Keyword::Multiply);
    }
    if spec_word(s, pos, Keyword::Divide) is Some {
        lemma_word_advances(s, pos, Keyword::Divide);
    }
    if spec_word(s, pos, Keyword::Exponent) is Some {
        lemma_word_advances(s, pos, Keyword::Exponent);
    }
    if spec_word(s, pos, Keyword::Modulus) is Some {
        lemma_word_advances(s, pos, Keyword::Modulus);
    }
    if spec_word(s, pos, Keyword::Equal) is Some {
        lemma_word_advances(s, pos, Keyword::Equal);
    }
    if spec_word(s, pos, Keyword::GreaterThan) is Some {
        lemma_word_advances(s, pos, Keyword::GreaterThan);
    }
    if spec_word(s, pos, Keyword::LessThan) is Some {
        lemma_word_advances(s, pos, Keyword::LessThan);
    }
    if spec_word(s, pos, Keyword::Or) is Some {
        lemma_word_advances(s, pos, Keyword::Or);
    }
    if spec_word(s, pos, Keyword::And) is Some {
        lemma_word_advances(s, pos, Keyword::And);
    }
}

/// An operation of an assignment takes up at least one character.
pub proof fn law_operation_advances(s: Seq<char>, pos: int)
    requires
        spec_operation(s, pos) is Ok,
        spec_operation(s, pos).unwrap() is Some,
    ensures
        spec_advances(s, pos, spec_operation(s, pos).unwrap().unwrap().1),
{
    if spec_word(s, pos, Keyword::Not) is Some {
        lemma_word_advances(s, pos, Keyword::Not);
    } else {
        lemma_operator_advances(s, pos);
        lemma_value_advances(s, spec_operator(s, pos).unwrap().1);
    }
}

proof fn lemma_operations_bounds(s: Seq<char>, pos: int, done: Seq<NodeView>)
    requires
        0 <= pos <= s.len(),
        spec_operations(s, pos, done) is Ok,
    ensures
        pos <= spec_operations(s, pos, done).unwrap().1 <= s.len(),
    decreases s.len() - pos,
{
    match spec_operation(s, pos) {
        Ok(Some((node, next))) => {
            law_operation_advances(s, pos);
            lemma_operations_bounds(s, next, done.push(node));
        },
        _ => {},
    }
}

/// An argument of a call, with its phrase, takes up at least one
/// character.
pub proof fn law_argument_advances(s: Seq<char>, pos: int)
    requires
        spec_word(s, pos, Keyword::Argument) is Some,
        spec_value(s, spec_word(s, pos, Keyword::Argument).unwrap()) is Ok,
    ensures
        spec_advances(
            s,
            pos,
            spec_value(s, spec_word(s, pos, Keyword::Argument).unwrap()).unwrap().1,
        ),
{
    lemma_word_advances(s, pos, Keyword::Argument);
    lemma_value_advances(s, spec_word(s, pos, Keyword::Argument).unwrap());
}

proof fn lemma_arguments_bounds(s: Seq<char>, pos: int, done: Seq<NodeView>)
    requires
        0 <= pos <= s.len(),
        spec_arguments(s, pos, done) is Ok,
    ensures
        pos <= spec_arguments(s, pos, done).unwrap().1 <= s.len(),
    decreases s.len() - pos,
{
    match spec_word(s, pos, Keyword::Argument) {
        Some(at_value) => {
            law_argument_advances(s, pos);
            let (node, next) = spec_value(s, at_value).unwrap();
            lemma_arguments_bounds(s, next, done.push(node));
        },
        None => {},
    }
}

/// A parameter of a function, with its phrase, takes up at least one
/// character.
pub proof fn law_parameter_advances(s: Seq<char>, pos: int)
    requires
        spec_word(s, pos, Keyword::Parameter) is Some,
        spec_variable(s, spec_word(s, pos, Keyword::Parameter).unwrap()) is Ok,
    ensures
        spec_advances(
            s,
            pos,
            spec_variable(s, spec_word(s, pos, Keyword::Parameter).unwrap()).unwrap().1,
        ),
{
    lemma_word_advances(s, pos, Keyword::Parameter);
    lemma_name_advances(s, spec_word(s, pos, Keyword::Parameter).unwrap());
}

proof fn lemma_parameters_bounds(s: Seq<char>, pos: int, done: Seq<NodeView>)
    requires
        0 <= pos <= s.len(),
        spec_parameters(s, pos, done) is Ok,
    ensures
        pos <= spec_parameters(s, pos, done).unwrap().1 <= s.len(),
    decreases s.len() - pos,
{
    match spec_word(s, pos, Keyword::Parameter) {
        Some(at_name) => {
            law_parameter_advances(s, pos);
            let (node, next) = spec_variable(s, at_name).unwrap();
            lemma_parameters_bounds(s, next, done.push(node));
        },
        None => {},
    }
}

proof fn lemma_call_bounds(s: Seq<char>, pos: int)
    requires
        0 <= pos <= s.len(),
        spec_call(s, pos) is Ok,
    ensures
        spec_advances(s, pos, spec_call(s, pos).unwrap().1),
{
    lemma_name_advances(s, pos);
    lemma_arguments_bounds(s, spec_name(s, pos).unwrap().1, Seq::empty());
}

proof fn lemma_assignment_bounds(s: Seq<char>, pos: int)
    requires
        0 <= pos <= s.len(),
        spec_assignment(s, pos) is Ok,
    ensures
        spec_advances(s, pos, spec_assignment(s, pos).unwrap().1),
{
    lemma_name_advances(s, pos);
    let at_first = spec_name(s, pos).unwrap().1;
    lemma_demand_advances(s, at_first, Keyword::First);
    let at_value = spec_demand(s, at_first, Keyword::First).unwrap();
    lemma_value_advances(s, at_value);
    let at_operations = spec_value(s, at_value).unwrap().1;
    lemma_operations_bounds(s, at_operations, Seq::empty());
    let at_end = spec_operations(s, at_operations, Seq::empty()).unwrap().1;
    lemma_demand_advances(s, at_end, Keyword::EndAssign);
}

proof fn lemma_capture_bounds(s: Seq<char>, pos: int)
    requires
        0 <= pos <= s.len(),
        spec_capture(s, pos) is Ok,
    ensures
        spec_advances(s, pos, spec_capture(s, pos).unwrap().1),
{
    lemma_name_advances(s, pos);
    let at_call = spec_name(s, pos).unwrap().1;
    lemma_demand_advances(s, at_call, Keyword::Call);
    let at_function = spec_demand(s, at_call, Keyword::Call).unwrap();
    lemma_call_bounds(s, at_function);
    let at_end = spec_call(s, at_function).unwrap().1;
    lemma_demand_advances(s, at_end, Keyword::EndAssign);
}

proof fn lemma_declaration_bounds(s: Seq<char>, pos: int, kind: Keyword)
    requires
        0 <= pos <= s.len(),
        spec_declaration(s, pos, kind) is Ok,
    ensures
        spec_advances(s, pos, spec_declaration(s, pos, kind).unwrap().1),
{
    lemma_name_advances(s, pos);
    let at_phrase = spec_name(s, pos).unwrap().1;
    lemma_demand_advances(s, at_phrase, Keyword::Initial);
    let at_value = spec_demand(s, at_phrase, Keyword::Initial).unwrap();
    match kind {
        Keyword::DeclareBoolean => lemma_boolean_advances(s, at_value),
        Keyword::DeclareString => lemma_text_advances(s, at_value),
        _ => lemma_number_advances(s, at_value),
    }
}

proof fn lemma_simple_part(s: Seq<char>, pos: int, k: Keyword)
    requires
        spec_word(s, pos, k) is Some,
    ensures
        0 <= pos < spec_word(s, pos, k).unwrap() <= s.len(),
{
    lemma_word_advances(s, pos, k);
}

/// A statement that holds no other statement takes up at least one
/// character.
pub proof fn lemma_simple_advances(s: Seq<char>, pos: int)
    requires
        spec_simple(s, pos) is Ok,
        spec_simple(s, pos).unwrap() is Some,
    ensures
        spec_advances(s, pos, spec_simple(s, pos).unwrap().unwrap().1),
{
    if spec_word(s, pos, Keyword::Print) is Some {
        lemma_simple_part(s, pos, Keyword::Print);
        lemma_value_advances(s, spec_word(s, pos, Keyword::Print).unwrap());
    } else if spec_word(s, pos, Keyword::Return) is Some {
        lemma_simple_part(s, pos, Keyword::Return);
        lemma_value_advances(s, spec_word(s, pos, Keyword::Return).unwrap());
    } else if spec_word(s, pos, Keyword::Assign) is Some {
        lemma_simple_part(s, pos, Keyword::Assign);
        lemma_assignment_bounds(s, spec_word(s, pos, Keyword::Assign).unwrap());
    } else if spec_word(s, pos, Keyword::Capture) is Some {
        lemma_simple_part(s, pos, Keyword::Capture);
        lemma_capture_bounds(s, spec_word(s, pos, Keyword::Capture).unwrap());
    } else if spec_word(s, pos, Keyword::Call) is Some {
        lemma_simple_part(s, pos, Keyword::Call);
        lemma_call_bounds(s, spec_word(s, pos, Keyword::Call).unwrap());
    } else if spec_word(s, pos, Keyword::DeclareFloat) is Some {
        lemma_simple_part(s, pos, Keyword::DeclareFloat);
        lemma_declaration_bounds(
            s,
            spec_word(s, pos, Keyword::DeclareFloat).unwrap(),
            Keyword::DeclareFloat,
        );
    } else if spec_word(s, pos, Keyword::DeclareString) is Some {
        lemma_simple_part(s, pos, Keyword::DeclareString);
        lemma_declaration_bounds(
            s,
            spec_word(s, pos, Keyword::DeclareString).unwrap(),
            Keyword::DeclareString,
        );
    } else if spec_word(s, pos, Keyword::DeclareBoolean) is Some {
        lemma_simple_part(s, pos, Keyword::DeclareBoolean);
        lemma_declaration_bounds(
            s,
            spec_word(s, pos, Keyword::DeclareBoolean).unwrap(),
            Keyword::DeclareBoolean,
        );
    } else if spec_word(s, pos, Keyword::ReadFloat) is Some {
        lemma_simple_part(s, pos, Keyword::ReadFloat);
        lemma_name_advances(s, spec_word(s, pos, Keyword::ReadFloat).unwrap());
    } else if spec_word(s, pos, Keyword::ReadString) is Some {
        lemma_simple_part(s, pos, Keyword::ReadString);
        lemma_name_advances(s, spec_word(s, pos, Keyword::ReadString).unwrap());
    } else {
        lemma_simple_part(s, pos, Keyword::ReadBoolean);
        lemma_name_advances(s, spec_word(s, pos, Keyword::ReadBoolean).unwrap());
    }
}

/// The blocks of a conditional lie behind the position at which the
/// conditional starts, and the conditional ends behind its phrase.
pub proof fn law_conditional_advances(s: Seq<char>, start: int, pos: int)
    requires
        0 <= start < pos <= s.len(),
        spec_conditional(s, start, pos) is Ok,
    ensures
        spec_advances(s, start, spec_value(s, pos).unwrap().1),
        spec_advances(s, pos, spec_conditional(s, start, pos).unwrap().1),
    decreases s.len() - start, 1int,
{
    lemma_value_advances(s, pos);
    let at_accepted = spec_value(s, pos).unwrap().1;
    lemma_block_bounds(s, start, at_accepted);
    let at_else = spec_block(s, start, at_accepted).unwrap().1;
    match spec_word(s, at_else, Keyword::Else) {
        Some(at_rejected) => {
            lemma_word_advances(s, at_else, Keyword::Else);
            lemma_block_bounds(s, start, at_rejected);
            let at_end = spec_block(s, start, at_rejected).unwrap().1;
            lemma_demand_advances(s, at_end, Keyword::EndIf);
        },
        None => {
            lemma_demand_advances(s, at_else, Keyword::EndIf);
        },
    }
}

/// The body of a condition loop lies behind the position at which the
/// loop starts, and the loop ends behind its phrase.
pub proof fn law_loop_advances(s: Seq<char>, start: int, pos: int)
    requires
        0 <= start < pos <= s.len(),
        spec_loop(s, start, pos) is Ok,
    ensures
        spec_advances(s, start, spec_value(s, pos).unwrap().1),
        spec_advances(s, pos, spec_loop(s, start, pos).unwrap().1),
    decreases s.len() - start, 1int,
{
    lemma_value_advances(s, pos);
    let at_body = spec_value(s, pos).unwrap().1;
    lemma_block_bounds(s, start, at_body);
    let at_end = spec_block(s, start, at_body).unwrap().1;
    lemma_demand_advances(s, at_end, Keyword::EndWhile);
}

/// The body of a counted loop lies behind the position at which the loop
/// starts, and the loop ends behind its phrase.
pub proof fn law_counted_advances(s: Seq<char>, start: int, pos: int)
    requires
        0 <= start < pos <= s.len(),
        spec_counted(s, start, pos) is Ok,
    ensures
        spec_advances(
            s,
            start,
            spec_variable(
                s,
                spec_demand(s, spec_value(s, pos).unwrap().1, Keyword::Counter).unwrap(),
            ).unwrap().1,
        ),
        spec_advances(s, pos, spec_counted(s, start, pos).unwrap().1),
    decreases s.len() - start, 1int,
{
    lemma_value_advances(s, pos);
    let at_phrase = spec_value(s, pos).unwrap().1;
    lemma_demand_advances(s, at_phrase, Keyword::Counter);
    let at_name = spec_demand(s, at_phrase, Keyword::Counter).unwrap();
    lemma_name_advances(s, at_name);
    let at_body = spec_variable(s, at_name).unwrap().1;
    lemma_block_bounds(s, start, at_body);
    let at_end = spec_block(s, start, at_body).unwrap().1;
    lemma_demand_advances(s, at_end, Keyword::EndFor);
}

proof fn lemma_block_bounds(s: Seq<char>, start: int, pos: int)
    requires
        0 <= start < pos <= s.len(),
        spec_block(s, start, pos) is Ok,
    ensures
        pos <= spec_block(s, start, pos).unwrap().1 <= s.len(),
    decreases s.len() - start, 0int,
{
    lemma_statements_bounds(s, pos, Seq::empty());
}

/// A statement takes up at least one character.
pub proof fn law_statement_advances(s: Seq<char>, pos: int)
    requires
        0 <= pos <= s.len(),
        spec_statement(s, pos) is Ok,
        spec_statement(s, pos).unwrap() is Some,
    ensures
        spec_advances(s, pos, spec_statement(s, pos).unwrap().unwrap().1),
    decreases s.len() - pos, 2int,
{
    match spec_simple(s, pos) {
        Ok(Some(_)) => {
            lemma_simple_advances(s, pos);
        },
        _ => {
            if spec_word(s, pos, Keyword::If) is Some {
                lemma_word_advances(s, pos, Keyword::If);
                law_conditional_advances(s, pos, spec_word(s, pos, Keyword::If).unwrap());
            } else if spec_word(s, pos, Keyword::While) is Some {
                lemma_word_advances(s, pos, Keyword::While);
                law_loop_advances(s, pos, spec_word(s, pos, Keyword::While).unwrap());
            } else {
                lemma_word_advances(s, pos, Keyword::For);
                law_counted_advances(s, pos, spec_word(s, pos, Keyword::For).unwrap());
            }
        },
    }
}

/// The statements from a position on end at or behind it, inside the
/// source.
pub proof fn lemma_statements_bounds(s: Seq<char>, pos: int, done: Seq<NodeView>)
    requires
        0 <= pos <= s.len(),
        spec_statements(s, pos, done) is Ok,
    ensures
        pos <= spec_statements(s, pos, done).unwrap().1 <= s.len(),
    decreases s.len() - pos, 3int,
{
    match spec_word(s, pos, Keyword::Noop) {
        Some(next) => {
            lemma_word_advances(s, pos, Keyword::Noop);
            lemma_statements_bounds(s, next, done);
        },
        None => match spec_statement(s, pos) {
            Ok(Some((node, next))) => {
                law_statement_advances(s, pos);
                lemma_statements_bounds(s, next, done.push(node));
            },
            _ => {},
        },
    }
}

/// A function declaration takes up at least one character.
pub proof fn law_function_advances(s: Seq<char>, pos: int)
    requires
        spec_word(s, pos, Keyword::Function) is Some,
        spec_function(s, spec_word(s, pos, Keyword::Function).unwrap()) is Ok,
    ensures
        spec_advances(
            s,
            pos,
            spec_function(s, spec_word(s, pos, Keyword::Function).unwrap()).unwrap().1,
        ),
{
    lemma_word_advances(s, pos, Keyword::Function);
    let at_name = spec_word(s, pos, Keyword::Function).unwrap();
    lemma_name_advances(s, at_name);
    let at_parameters = spec_name(s, at_name).unwrap().1;
    lemma_parameters_bounds(s, at_parameters, Seq::empty());
    let at_mark = spec_parameters(s, at_parameters, Seq::empty()).unwrap().1;
    let at_body = if spec_word(s, at_mark, Keyword::Void) is Some {
        spec_word(s, at_mark, Keyword::Void).unwrap()
    } else {
        at_mark
    };
    if spec_word(s, at_mark, Keyword::Void) is Some {
        lemma_word_advances(s, at_mark, Keyword::Void);
    }
    lemma_statements_bounds(s, at_body, Seq::empty());
    let at_end = spec_statements(s, at_body, Seq::empty()).unwrap().1;
    lemma_demand_advances(s, at_end, Keyword::EndFunction);
}

} // verus!
