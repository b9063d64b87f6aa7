//! The grammar of the language and the parser that implements it.
//!
//! The grammar is written down as specification functions over the
//! characters of a source (`spec_program` and what it calls). Each of them
//! starts at the first character of a token and gives the position of the
//! next token, behind the blanks and comments that follow. The executable
//! functions compute exactly what the specification functions define.
use vstd::prelude::*;
use crate::ast::{are_operations, are_statements, are_values, is_statement, is_value,
    lemma_nodes_view_empty, lemma_nodes_view_push, nodes_view, well_formed, BinaryOperation, Node,
    NodeView, UnaryOperation};
use crate::number::{numeral, spec_numeral};
use crate::progress::lemma_phrase_is_not_empty;
use crate::text::{at, name_end, push_char, skip, slice_text, spec_at, spec_is_name_start,
    spec_name_end, spec_skip, is_name_start, to_chars};
use crate::vocabulary::{phrase, spec_phrase, Keyword};

verus! {

/// What the parser looked for where it stopped.
#[derive(Debug, Clone, Copy, PartialEq, Eq, Structural)]
pub enum Expected {
    /// A function declaration, the entry point, or the end of the source.
    Entry,
    /// The given phrase.
    Phrase(Keyword),
    /// The name of a variable or function.
    Name,
    /// A literal or the name of a variable.
    Value,
    /// A numeric literal.
    Number,
    /// A string literal.
    Text,
    /// A boolean literal.
    Boolean,
    /// The quote that closes a string literal.
    Quote,
    /// One of the escape sequences that a string literal may hold.
    Escape,
    /// The end of the source.
    End,
}

/// Why a source is not a program: what was expected, and the index of the
/// character at which it was not found.
#[derive(Debug, Clone, Copy, PartialEq, Eq, Structural)]
pub struct SyntaxError {
    pub offset: usize,
    pub expected: Expected,
}

/// The error that `expected` was not found at `pos`.
pub open spec fn spec_missing(pos: int, expected: Expected) -> SyntaxError {
    SyntaxError { offset: pos as usize, expected }
}

fn missing(pos: usize, expected: Expected) -> (r: SyntaxError)
    ensures
        r == spec_missing(pos as int, expected),
{
    SyntaxError { offset: pos, expected }
}

/// The phrase of `k` at `pos`: the position of the token after it.
pub open spec fn spec_word(s: Seq<char>, pos: int, k: Keyword) -> Option<int> {
    if spec_at(s, pos, spec_phrase(k)) {
        Some(spec_skip(s, pos + spec_phrase(k).len()))
    } else {
        None
    }
}

pub fn word(s: &Vec<char>, pos: usize, k: Keyword) -> (r: Option<usize>)
    requires
        pos <= s.len(),
    ensures
        r is Some == spec_word(s@, pos as int, k) is Some,
        r is Some ==> r.unwrap() == spec_word(s@, pos as int, k).unwrap() && pos < r.unwrap()
            <= s.len(),
{
    proof {
        lemma_phrase_is_not_empty(k);
    }
    match at(s, pos, phrase(k)) {
        Some(end) => Some(skip(s, end)),
        None => None,
    }
}

/// The phrase of `k`, which must stand at `pos`.
pub open spec fn spec_demand(s: Seq<char>, pos: int, k: Keyword) -> Result<int, SyntaxError> {
    match spec_word(s, pos, k) {
        Some(next) => Ok(next),
        None => Err(spec_missing(pos, Expected::Phrase(k))),
    }
}

pub fn demand(s: &Vec<char>, pos: usize, k: Keyword) -> (r: Result<usize, SyntaxError>)
    requires
        pos <= s.len(),
    ensures
        match r {
            Ok(next) => spec_demand(s@, pos as int, k) == Ok::<int, SyntaxError>(next as int)
                && pos < next <= s.len(),
            Err(e) => spec_demand(s@, pos as int, k) == Err::<int, SyntaxError>(e),
        },
{
    match word(s, pos, k) {
        Some(next) => Ok(next),
        None => Err(missing(pos, Expected::Phrase(k))),
    }
}

/// A name at `pos`: a letter or underscore followed by letters, digits and
/// underscores.
pub open spec fn spec_name(s: Seq<char>, pos: int) -> Result<(Seq<char>, int), SyntaxError> {
    if 0 <= pos < s.len() && spec_is_name_start(s[pos]) {
        let end = spec_name_end(s, pos);
        Ok((s.subrange(pos, end), spec_skip(s, end)))
    } else {
        Err(spec_missing(pos, Expected::Name))
    }
}

pub fn name(s: &Vec<char>, pos: usize) -> (r: Result<(String, usize), SyntaxError>)
    requires
        pos <= s.len(),
    ensures
        match r {
            Ok((text, next)) => spec_name(s@, pos as int) == Ok::<(Seq<char>, int), SyntaxError>(
                (text@, next as int),
            ) && pos < next <= s.len(),
            Err(e) => spec_name(s@, pos as int) == Err::<(Seq<char>, int), SyntaxError>(e),
        },
{
    if pos < s.len() && is_name_start(s[pos]) {
        let end = name_end(s, pos + 1);
        assert(spec_name_end(s@, pos as int) == spec_name_end(s@, pos + 1));
        Ok((slice_text(s, pos, end), skip(s, end)))
    } else {
        Err(missing(pos, Expected::Name))
    }
}

/// The character that stands for the escape sequence made of a backslash
/// and `c`.
pub open spec fn spec_escape(c: char) -> Option<char> {
    if c == '"' {
        Some('"')
    } else if c == '\\' {
        Some('\\')
    } else if c == '/' {
        Some('/')
    } else if c == 'n' {
        Some('\n')
    } else if c == 'r' {
        Some('\r')
    } else if c == 't' {
        Some('\t')
    } else {
        None
    }
}

pub fn escape(c: char) -> (r: Option<char>)
    ensures
        r == spec_escape(c),
{
    if c == '"' {
        Some('"')
    } else if c == '\\' {
        Some('\\')
    } else if c == '/' {
        Some('/')
    } else if c == 'n' {
        Some('\n')
    } else if c == 'r' {
        Some('\r')
    } else if c == 't' {
        Some('\t')
    } else {
        None
    }
}

/// The rest of a string literal whose opening quote and first characters,
/// which stand for `done`, lie before `pos`: the literal's content and the
/// position behind its closing quote.
pub open spec fn spec_text_rest(s: Seq<char>, pos: int, done: Seq<char>) -> Result<
    (Seq<char>, int),
    SyntaxError,
>
    decreases s.len() - pos,
{
    if pos < 0 || pos >= s.len() {
        Err(spec_missing(pos, Expected::Quote))
    } else if s[pos] == '"' {
        Ok((done, pos + 1))
    } else if s[pos] == '\\' {
        if pos + 1 < s.len() && spec_escape(s[pos + 1]) is Some {
            spec_text_rest(s, pos + 2, done.push(spec_escape(s[pos + 1]).unwrap()))
        } else {
            Err(spec_missing(pos, Expected::Escape))
        }
    } else {
        spec_text_rest(s, pos + 1, done.push(s[pos]))
    }
}

/// Builds the string that the literal's characters stand for.
pub fn build_string(s: &Vec<char>, pos: usize) -> (r: Result<(String, usize), SyntaxError>)
    requires
        pos <= s.len(),
    ensures
        match r {
            Ok((text, end)) => spec_text_rest(s@, pos as int, Seq::empty()) == Ok::<
                (Seq<char>, int),
                SyntaxError,
            >((text@, end as int)) && pos < end <= s.len(),
            Err(e) => spec_text_rest(s@, pos as int, Seq::empty()) == Err::<
                (Seq<char>, int),
                SyntaxError,
            >(e),
        },
{
    let mut text = String::new();
    let mut i: usize = pos;
    loop
        invariant
            pos <= i <= s.len(),
            spec_text_rest(s@, pos as int, Seq::empty()) == spec_text_rest(s@, i as int, text@),
        decreases s.len() - i,
    {
        if i >= s.len() {
            return Err(missing(i, Expected::Quote));
        }
        let c = s[i];
        if c == '"' {
            return Ok((text, i + 1));
        }
        if c == '\\' {
            if i + 1 < s.len() {
                match escape(s[i + 1]) {
                    Some(e) => {
                        push_char(&mut text, e);
                        i += 2;
                    },
                    None => {
                        return Err(missing(i, Expected::Escape));
                    },
                }
            } else {
                return Err(missing(i, Expected::Escape));
            }
        } else {
            push_char(&mut text, c);
            i += 1;
        }
    }
}

/// A string literal at `pos`.
pub open spec fn spec_text(s: Seq<char>, pos: int) -> Result<(NodeView, int), SyntaxError> {
    if 0 <= pos < s.len() && s[pos] == '"' {
        match spec_text_rest(s, pos + 1, Seq::empty()) {
            Ok((text, end)) => Ok((NodeView::String(text), spec_skip(s, end))),
            Err(e) => Err(e),
        }
    } else {
        Err(spec_missing(pos, Expected::Text))
    }
}

/// What an executable parsing function found, as the specification
/// functions state it.
pub open spec fn found(r: Result<(Node, usize), SyntaxError>) -> Result<
    (NodeView, int),
    SyntaxError,
> {
    match r {
        Ok((node, next)) => Ok((node@, next as int)),
        Err(e) => Err(e),
    }
}

/// The same for a function that finds several nodes.
pub open spec fn found_all(r: Result<(Vec<Node>, usize), SyntaxError>) -> Result<
    (Seq<NodeView>, int),
    SyntaxError,
> {
    match r {
        Ok((nodes, next)) => Ok((nodes_view(nodes@), next as int)),
        Err(e) => Err(e),
    }
}

/// The same for a function that may find nothing.
pub open spec fn found_or_not(r: Result<Option<(Node, usize)>, SyntaxError>) -> Result<
    Option<(NodeView, int)>,
    SyntaxError,
> {
    match r {
        Ok(Some((node, next))) => Ok(Some((node@, next as int))),
        Ok(None) => Ok(None),
        Err(e) => Err(e),
    }
}

pub fn text(s: &Vec<char>, pos: usize) -> (r: Result<(Node, usize), SyntaxError>)
    requires
        pos <= s.len(),
    ensures
        found(r) == spec_text(s@, pos as int),
        r is Ok ==> pos < r.unwrap().1 <= s.len() && r.unwrap().0@ is String,
{
    if pos < s.len() && s[pos] == '"' {
        match build_string(s, pos + 1) {
            Ok((text, end)) => Ok((Node::String(text), skip(s, end))),
            Err(e) => Err(e),
        }
    } else {
        Err(missing(pos, Expected::Text))
    }
}

/// A boolean literal at `pos`: one of two phrases.
pub open spec fn spec_boolean(s: Seq<char>, pos: int) -> Result<(NodeView, int), SyntaxError> {
    match spec_word(s, pos, Keyword::True) {
        Some(next) => Ok((NodeView::Boolean(true), next)),
        None => match spec_word(s, pos, Keyword::False) {
            Some(next) => Ok((NodeView::Boolean(false), next)),
            None => Err(spec_missing(pos, Expected::Boolean)),
        },
    }
}

pub fn boolean(s: &Vec<char>, pos: usize) -> (r: Result<(Node, usize), SyntaxError>)
    requires
        pos <= s.len(),
    ensures
        found(r) == spec_boolean(s@, pos as int),
        r is Ok ==> pos < r.unwrap().1 <= s.len() && r.unwrap().0@ is Boolean,
{
    match word(s, pos, Keyword::True) {
        Some(next) => Ok((Node::Boolean(true), next)),
        None => match word(s, pos, Keyword::False) {
            Some(next) => Ok((Node::Boolean(false), next)),
            None => Err(missing(pos, Expected::Boolean)),
        },
    }
}

/// A numeric literal at `pos`: a signed decimal, or one of the words that
/// stand for the integers one to nine.
pub open spec fn spec_number(s: Seq<char>, pos: int) -> Result<(NodeView, int), SyntaxError> {
    match spec_numeral(s, pos) {
        Some((value, end)) => Ok((NodeView::Float(value), spec_skip(s, end))),
        None => Err(spec_missing(pos, Expected::Number)),
    }
}

pub fn number(s: &Vec<char>, pos: usize) -> (r: Result<(Node, usize), SyntaxError>)
    requires
        pos <= s.len(),
    ensures
        found(r) == spec_number(s@, pos as int),
        r is Ok ==> pos < r.unwrap().1 <= s.len() && r.unwrap().0@ is Float && well_formed(
            r.unwrap().0@,
        ),
{
    match numeral(s, pos) {
        Some((value, end)) => Ok((Node::Float(value), skip(s, end))),
        None => Err(missing(pos, Expected::Number)),
    }
}

/// A variable reference at `pos`.
pub open spec fn spec_variable(s: Seq<char>, pos: int) -> Result<(NodeView, int), SyntaxError> {
    match spec_name(s, pos) {
        Ok((text, next)) => Ok((NodeView::Variable(text), next)),
        Err(e) => Err(e),
    }
}

pub fn variable(s: &Vec<char>, pos: usize) -> (r: Result<(Node, usize), SyntaxError>)
    requires
        pos <= s.len(),
    ensures
        found(r) == spec_variable(s@, pos as int),
        r is Ok ==> pos < r.unwrap().1 <= s.len() && r.unwrap().0@ is Variable,
{
    match name(s, pos) {
        Ok((text, next)) => Ok((Node::Variable(text), next)),
        Err(e) => Err(e),
    }
}

/// A value at `pos`: a string, boolean or numeric literal, or the name of
/// a variable, tried in this order.
pub open spec fn spec_value(s: Seq<char>, pos: int) -> Result<(NodeView, int), SyntaxError> {
    if 0 <= pos < s.len() && s[pos] == '"' {
        spec_text(s, pos)
    } else if spec_boolean(s, pos) is Ok {
        spec_boolean(s, pos)
    } else if spec_number(s, pos) is Ok {
        spec_number(s, pos)
    } else if spec_variable(s, pos) is Ok {
        spec_variable(s, pos)
    } else {
        Err(spec_missing(pos, Expected::Value))
    }
}

pub fn value(s: &Vec<char>, pos: usize) -> (r: Result<(Node, usize), SyntaxError>)
    requires
        pos <= s.len(),
    ensures
        found(r) == spec_value(s@, pos as int),
        r is Ok ==> pos < r.unwrap().1 <= s.len() && is_value(r.unwrap().0@) && well_formed(
            r.unwrap().0@,
        ),
{
    if pos < s.len() && s[pos] == '"' {
        return text(s, pos);
    }
    let as_boolean = boolean(s, pos);
    if as_boolean.is_ok() {
        return as_boolean;
    }
    let as_number = number(s, pos);
    if as_number.is_ok() {
        return as_number;
    }
    let as_variable = variable(s, pos);
    if as_variable.is_ok() {
        return as_variable;
    }
    Err(missing(pos, Expected::Value))
}

/// Whether a position handed on lies behind `pos` and inside the source.
/// The lists and blocks of the grammar go on only from such a position,
/// which makes their definitions well-founded. It always is such a
/// position: the module `progress` proves that for every place where the
/// grammar asks.
pub open spec fn spec_advances(s: Seq<char>, pos: int, next: int) -> bool {
    pos < next <= s.len()
}

/// The phrase of a binary operation at `pos`.
pub open spec fn spec_operator(s: Seq<char>, pos: int) -> Option<(BinaryOperation, int)> {
    if spec_word(s, pos, Keyword::Add) is Some {
        Some((BinaryOperation::Add, spec_word(s, pos, Keyword::Add).unwrap()))
    } else if spec_word(s, pos, Keyword::Subtract) is Some {
        Some((BinaryOperation::Subtract, spec_word(s, pos, Keyword::Subtract).unwrap()))
    } else if spec_word(s, pos, Keyword::Multiply) is Some {
        Some((BinaryOperation::Multiply, spec_word(s, pos, Keyword::Multiply).unwrap()))
    } else if spec_word(s, pos, Keyword::Divide) is Some {
        Some((BinaryOperation::Divide, spec_word(s, pos, Keyword::Divide).unwrap()))
    } else if spec_word(s, pos, Keyword::Exponent) is Some {
        Some((BinaryOperation::Exponent, spec_word(s, pos, Keyword::Exponent).unwrap()))
    } else if spec_word(s, pos, Keyword::Modulus) is Some {
        Some((BinaryOperation::Modulus, spec_word(s, pos, Keyword::Modulus).unwrap()))
    } else if spec_word(s, pos, Keyword::Equal) is Some {
        Some((BinaryOperation::Equal, spec_word(s, pos, Keyword::Equal).unwrap()))
    } else if spec_word(s, pos, Keyword::GreaterThan) is Some {
        Some((BinaryOperation::GreaterThan, spec_word(s, pos, Keyword::GreaterThan).unwrap()))
    } else if spec_word(s, pos, Keyword::LessThan) is Some {
        Some((BinaryOperation::LessThan, spec_word(s, pos, Keyword::LessThan).unwrap()))
    } else if spec_word(s, pos, Keyword::Or) is Some {
        Some((BinaryOperation::Or, spec_word(s, pos, Keyword::Or).unwrap()))
    } else if spec_word(s, pos, Keyword::And) is Some {
        Some((BinaryOperation::And, spec_word(s, pos, Keyword::And).unwrap()))
    } else {
        None
    }
}

pub fn operator(s: &Vec<char>, pos: usize) -> (r: Option<(BinaryOperation, usize)>)
    requires
        pos <= s.len(),
    ensures
        r is Some == spec_operator(s@, pos as int) is Some,
        r is Some ==> {
            &&& r.unwrap().0 == spec_operator(s@, pos as int).unwrap().0
            &&& r.unwrap().1 == spec_operator(s@, pos as int).unwrap().1
            &&& pos < r.unwrap().1 <= s.len()
        },
{
    if let Some(next) = word(s, pos, Keyword::Add) {
        Some((BinaryOperation::Add, next))
    } else if let Some(next) = word(s, pos, Keyword::Subtract) {
        Some((BinaryOperation::Subtract, next))
    } else if let Some(next) = word(s, pos, Keyword::Multiply) {
        Some((BinaryOperation::Multiply, next))
    } else if let Some(next) = word(s, pos, Keyword::Divide) {
        Some((BinaryOperation::Divide, next))
    } else if let Some(next) = word(s, pos, Keyword::Exponent) {
        Some((BinaryOperation::Exponent, next))
    } else if let Some(next) = word(s, pos, Keyword::Modulus) {
        Some((BinaryOperation::Modulus, next))
    } else if let Some(next) = word(s, pos, Keyword::Equal) {
        Some((BinaryOperation::Equal, next))
    } else if let Some(next) = word(s, pos, Keyword::GreaterThan) {
        Some((BinaryOperation::GreaterThan, next))
    } else if let Some(next) = word(s, pos, Keyword::LessThan) {
        Some((BinaryOperation::LessThan, next))
    } else if let Some(next) = word(s, pos, Keyword::Or) {
        Some((BinaryOperation::Or, next))
    } else if let Some(next) = word(s, pos, Keyword::And) {
        Some((BinaryOperation::And, next))
    } else {
        None
    }
}

/// One operation of an assignment at `pos`, if one stands there: negation,
/// which takes no operand, or a binary operation and its operand.
pub open spec fn spec_operation(s: Seq<char>, pos: int) -> Result<
    Option<(NodeView, int)>,
    SyntaxError,
> {
    match spec_word(s, pos, Keyword::Not) {
        Some(next) => Ok(Some((NodeView::Unary(UnaryOperation::Not), next))),
        None => match spec_operator(s, pos) {
            Some((operation, at_operand)) => match spec_value(s, at_operand) {
                Ok((operand, next)) => Ok(
                    Some((NodeView::Binary(operation, Box::new(operand)), next)),
                ),
                Err(e) => Err(e),
            },
            None => Ok(None),
        },
    }
}

pub fn operation(s: &Vec<char>, pos: usize) -> (r: Result<Option<(Node, usize)>, SyntaxError>)
    requires
        pos <= s.len(),
    ensures
        found_or_not(r) == spec_operation(s@, pos as int),
        r is Ok && r.unwrap() is Some ==> {
            let (node, next) = r.unwrap().unwrap();
            &&& pos < next <= s.len()
            &&& node@ is Binary || node@ is Unary
            &&& well_formed(node@)
        },
{
    match word(s, pos, Keyword::Not) {
        Some(next) => Ok(Some((Node::Unary(UnaryOperation::Not), next))),
        None => match operator(s, pos) {
            Some((operation, at_operand)) => match value(s, at_operand) {
                Ok((operand, next)) => Ok(Some((Node::Binary(operation, Box::new(operand)), next))),
                Err(e) => Err(e),
            },
            None => Ok(None),
        },
    }
}

/// The operations of an assignment from `pos` on, behind those in `done`.
pub open spec fn spec_operations(s: Seq<char>, pos: int, done: Seq<NodeView>) -> Result<
    (Seq<NodeView>, int),
    SyntaxError,
>
    decreases s.len() - pos,
{
    match spec_operation(s, pos) {
        Err(e) => Err(e),
        Ok(None) => Ok((done, pos)),
        Ok(Some((node, next))) => if spec_advances(s, pos, next) {
            spec_operations(s, next, done.push(node))
        } else {
            Ok((done.push(node), next))
        },
    }
}

pub fn operations(s: &Vec<char>, pos: usize) -> (r: Result<(Vec<Node>, usize), SyntaxError>)
    requires
        pos <= s.len(),
    ensures
        found_all(r) == spec_operations(s@, pos as int, Seq::empty()),
        r is Ok ==> pos <= r.unwrap().1 <= s.len() && are_operations(nodes_view(r.unwrap().0@)),
{
    let mut done: Vec<Node> = Vec::new();
    let mut i: usize = pos;
    proof {
        lemma_nodes_view_empty();
    }
    loop
        invariant
            pos <= i <= s.len(),
            spec_operations(s@, pos as int, Seq::empty()) == spec_operations(
                s@,
                i as int,
                nodes_view(done@),
            ),
            are_operations(nodes_view(done@)),
        decreases s.len() - i,
    {
        match operation(s, i) {
            Err(e) => {
                return Err(e);
            },
            Ok(None) => {
                return Ok((done, i));
            },
            Ok(Some((node, next))) => {
                proof {
                    lemma_nodes_view_push(done@, node);
                }
                done.push(node);
                i = next;
            },
        }
    }
}

/// The arguments of a call from `pos` on, behind those in `done`. Each is
/// introduced by its own phrase.
pub open spec fn spec_arguments(s: Seq<char>, pos: int, done: Seq<NodeView>) -> Result<
    (Seq<NodeView>, int),
    SyntaxError,
>
    decreases s.len() - pos,
{
    match spec_word(s, pos, Keyword::Argument) {
        None => Ok((done, pos)),
        Some(at_value) => match spec_value(s, at_value) {
            Err(e) => Err(e),
            Ok((node, next)) => if spec_advances(s, pos, next) {
                spec_arguments(s, next, done.push(node))
            } else {
                Ok((done.push(node), next))
            },
        },
    }
}

pub fn arguments(s: &Vec<char>, pos: usize) -> (r: Result<(Vec<Node>, usize), SyntaxError>)
    requires
        pos <= s.len(),
    ensures
        found_all(r) == spec_arguments(s@, pos as int, Seq::empty()),
        r is Ok ==> pos <= r.unwrap().1 <= s.len() && are_values(nodes_view(r.unwrap().0@)),
{
    let mut done: Vec<Node> = Vec::new();
    let mut i: usize = pos;
    proof {
        lemma_nodes_view_empty();
    }
    loop
        invariant
            pos <= i <= s.len(),
            spec_arguments(s@, pos as int, Seq::empty()) == spec_arguments(
                s@,
                i as int,
                nodes_view(done@),
            ),
            are_values(nodes_view(done@)),
        decreases s.len() - i,
    {
        match word(s, i, Keyword::Argument) {
            None => {
                return Ok((done, i));
            },
            Some(at_value) => match value(s, at_value) {
                Err(e) => {
                    return Err(e);
                },
                Ok((node, next)) => {
                    proof {
                        lemma_nodes_view_push(done@, node);
                    }
                    done.push(node);
                    i = next;
                },
            },
        }
    }
}

/// The parameters of a function from `pos` on, behind those in `done`.
/// Each is introduced by its own phrase.
pub open spec fn spec_parameters(s: Seq<char>, pos: int, done: Seq<NodeView>) -> Result<
    (Seq<NodeView>, int),
    SyntaxError,
>
    decreases s.len() - pos,
{
    match spec_word(s, pos, Keyword::Parameter) {
        None => Ok((done, pos)),
        Some(at_name) => match spec_variable(s, at_name) {
            Err(e) => Err(e),
            Ok((node, next)) => if spec_advances(s, pos, next) {
                spec_parameters(s, next, done.push(node))
            } else {
                Ok((done.push(node), next))
            },
        },
    }
}

/// Every node is a variable reference.
pub open spec fn are_variables(nodes: Seq<NodeView>) -> bool {
    forall|i: int| 0 <= i < nodes.len() ==> #[trigger] nodes[i] is Variable
}

pub fn parameters(s: &Vec<char>, pos: usize) -> (r: Result<(Vec<Node>, usize), SyntaxError>)
    requires
        pos <= s.len(),
    ensures
        found_all(r) == spec_parameters(s@, pos as int, Seq::empty()),
        r is Ok ==> pos <= r.unwrap().1 <= s.len() && are_variables(nodes_view(r.unwrap().0@)),
{
    let mut done: Vec<Node> = Vec::new();
    let mut i: usize = pos;
    proof {
        lemma_nodes_view_empty();
    }
    loop
        invariant
            pos <= i <= s.len(),
            spec_parameters(s@, pos as int, Seq::empty()) == spec_parameters(
                s@,
                i as int,
                nodes_view(done@),
            ),
            are_variables(nodes_view(done@)),
        decreases s.len() - i,
    {
        match word(s, i, Keyword::Parameter) {
            None => {
                return Ok((done, i));
            },
            Some(at_name) => match variable(s, at_name) {
                Err(e) => {
                    return Err(e);
                },
                Ok((node, next)) => {
                    proof {
                        lemma_nodes_view_push(done@, node);
                    }
                    done.push(node);
                    i = next;
                },
            },
        }
    }
}

/// A call whose phrase ends before `pos`: the function's name and the
/// arguments.
pub open spec fn spec_call(s: Seq<char>, pos: int) -> Result<(NodeView, int), SyntaxError> {
    match spec_name(s, pos) {
        Err(e) => Err(e),
        Ok((function, at_arguments)) => match spec_arguments(s, at_arguments, Seq::empty()) {
            Err(e) => Err(e),
            Ok((values, next)) => Ok((NodeView::CallFunction(function, values), next)),
        },
    }
}

pub fn call(s: &Vec<char>, pos: usize) -> (r: Result<(Node, usize), SyntaxError>)
    requires
        pos <= s.len(),
    ensures
        found(r) == spec_call(s@, pos as int),
        r is Ok ==> pos <= r.unwrap().1 <= s.len() && r.unwrap().0@ is CallFunction
            && well_formed(r.unwrap().0@),
{
    match name(s, pos) {
        Err(e) => Err(e),
        Ok((function, at_arguments)) => match arguments(s, at_arguments) {
            Err(e) => Err(e),
            Ok((values, next)) => Ok((Node::CallFunction(function, values), next)),
        },
    }
}

/// An assignment whose phrase ends before `pos`: the target's name, the
/// first value behind its phrase, the operations, and the closing phrase.
pub open spec fn spec_assignment(s: Seq<char>, pos: int) -> Result<(NodeView, int), SyntaxError> {
    match spec_name(s, pos) {
        Err(e) => Err(e),
        Ok((target, at_first)) => match spec_demand(s, at_first, Keyword::First) {
            Err(e) => Err(e),
            Ok(at_value) => match spec_value(s, at_value) {
                Err(e) => Err(e),
                Ok((first, at_operations)) => match spec_operations(
                    s,
                    at_operations,
                    Seq::empty(),
                ) {
                    Err(e) => Err(e),
                    Ok((chain, at_end)) => match spec_demand(s, at_end, Keyword::EndAssign) {
                        Err(e) => Err(e),
                        Ok(next) => Ok(
                            (NodeView::AssignVariable(target, Box::new(first), chain), next),
                        ),
                    },
                },
            },
        },
    }
}

pub fn assignment(s: &Vec<char>, pos: usize) -> (r: Result<(Node, usize), SyntaxError>)
    requires
        pos <= s.len(),
    ensures
        found(r) == spec_assignment(s@, pos as int),
        r is Ok ==> pos <= r.unwrap().1 <= s.len() && r.unwrap().0@ is AssignVariable
            && well_formed(r.unwrap().0@),
{
    let (target, at_first) = match name(s, pos) {
        Err(e) => { return Err(e); },
        Ok(x) => x,
    };
    let at_value = match demand(s, at_first, Keyword::First) {
        Err(e) => { return Err(e); },
        Ok(x) => x,
    };
    let (first, at_operations) = match value(s, at_value) {
        Err(e) => { return Err(e); },
        Ok(x) => x,
    };
    let (chain, at_end) = match operations(s, at_operations) {
        Err(e) => { return Err(e); },
        Ok(x) => x,
    };
    match demand(s, at_end, Keyword::EndAssign) {
        Err(e) => Err(e),
        Ok(next) => Ok((Node::AssignVariable(target, Box::new(first), chain), next)),
    }
}

/// An assignment from a call, whose phrase ends before `pos`: the target's
/// name, the call, and the closing phrase.
pub open spec fn spec_capture(s: Seq<char>, pos: int) -> Result<(NodeView, int), SyntaxError> {
    match spec_name(s, pos) {
        Err(e) => Err(e),
        Ok((target, at_call)) => match spec_demand(s, at_call, Keyword::Call) {
            Err(e) => Err(e),
            Ok(at_function) => match spec_call(s, at_function) {
                Err(e) => Err(e),
                Ok((made, at_end)) => match spec_demand(s, at_end, Keyword::EndAssign) {
                    Err(e) => Err(e),
                    Ok(next) => Ok(
                        (NodeView::AssignVariable(target, Box::new(made), Seq::empty()), next),
                    ),
                },
            },
        },
    }
}

pub fn capture(s: &Vec<char>, pos: usize) -> (r: Result<(Node, usize), SyntaxError>)
    requires
        pos <= s.len(),
    ensures
        found(r) == spec_capture(s@, pos as int),
        r is Ok ==> pos <= r.unwrap().1 <= s.len() && r.unwrap().0@ is AssignVariable
            && well_formed(r.unwrap().0@),
{
    let (target, at_call) = match name(s, pos) {
        Err(e) => { return Err(e); },
        Ok(x) => x,
    };
    let at_function = match demand(s, at_call, Keyword::Call) {
        Err(e) => { return Err(e); },
        Ok(x) => x,
    };
    let (made, at_end) = match call(s, at_function) {
        Err(e) => { return Err(e); },
        Ok(x) => x,
    };
    match demand(s, at_end, Keyword::EndAssign) {
        Err(e) => Err(e),
        Ok(next) => {
            let chain: Vec<Node> = Vec::new();
            proof {
                assert(nodes_view(chain@) =~= Seq::empty());
                assert(are_operations(nodes_view(chain@)));
            }
            Ok((Node::AssignVariable(target, Box::new(made), chain), next))
        },
    }
}

/// The initial value of a declaration: a literal of the kind that the
/// declaring phrase `kind` asks for, and no other.
pub open spec fn spec_initial(s: Seq<char>, pos: int, kind: Keyword) -> Result<
    (NodeView, int),
    SyntaxError,
> {
    match kind {
        Keyword::DeclareBoolean => spec_boolean(s, pos),
        Keyword::DeclareString => spec_text(s, pos),
        _ => spec_number(s, pos),
    }
}

/// The declaration of `kind` for a variable named `target` with the
/// initial value `initial`.
pub open spec fn spec_declared(kind: Keyword, target: Seq<char>, initial: NodeView) -> NodeView {
    match kind {
        Keyword::DeclareBoolean => NodeView::DeclareBoolean(target, Box::new(initial)),
        Keyword::DeclareString => NodeView::DeclareString(target, Box::new(initial)),
        _ => NodeView::DeclareFloat(target, Box::new(initial)),
    }
}

/// A declaration whose phrase, that of `kind`, ends before `pos`: the
/// variable's name, the phrase of the initial value, and a literal of the
/// declared kind.
pub open spec fn spec_declaration(s: Seq<char>, pos: int, kind: Keyword) -> Result<
    (NodeView, int),
    SyntaxError,
> {
    match spec_name(s, pos) {
        Err(e) => Err(e),
        Ok((target, at_phrase)) => match spec_demand(s, at_phrase, Keyword::Initial) {
            Err(e) => Err(e),
            Ok(at_value) => match spec_initial(s, at_value, kind) {
                Err(e) => Err(e),
                Ok((initial, next)) => Ok((spec_declared(kind, target, initial), next)),
            },
        },
    }
}

pub fn declaration(s: &Vec<char>, pos: usize, kind: Keyword) -> (r: Result<
    (Node, usize),
    SyntaxError,
>)
    requires
        pos <= s.len(),
    ensures
        found(r) == spec_declaration(s@, pos as int, kind),
        r is Ok ==> pos <= r.unwrap().1 <= s.len() && is_statement(r.unwrap().0@)
            && well_formed(r.unwrap().0@),
{
    let (target, at_phrase) = match name(s, pos) {
        Err(e) => { return Err(e); },
        Ok(x) => x,
    };
    let at_value = match demand(s, at_phrase, Keyword::Initial) {
        Err(e) => { return Err(e); },
        Ok(x) => x,
    };
    match kind {
        Keyword::DeclareBoolean => match boolean(s, at_value) {
            Err(e) => Err(e),
            Ok((initial, next)) => Ok((Node::DeclareBoolean(target, Box::new(initial)), next)),
        },
        Keyword::DeclareString => match text(s, at_value) {
            Err(e) => Err(e),
            Ok((initial, next)) => Ok((Node::DeclareString(target, Box::new(initial)), next)),
        },
        _ => match number(s, at_value) {
            Err(e) => Err(e),
            Ok((initial, next)) => Ok((Node::DeclareFloat(target, Box::new(initial)), next)),
        },
    }
}

/// The typed read of `kind` into `target`.
pub open spec fn spec_reading(kind: Keyword, target: NodeView) -> NodeView {
    match kind {
        Keyword::ReadBoolean => NodeView::ReadBoolean(Box::new(target)),
        Keyword::ReadString => NodeView::ReadString(Box::new(target)),
        _ => NodeView::ReadFloat(Box::new(target)),
    }
}

/// A typed read whose phrase, that of `kind`, ends before `pos`: the name
/// of the variable that takes the input.
pub open spec fn spec_read(s: Seq<char>, pos: int, kind: Keyword) -> Result<
    (NodeView, int),
    SyntaxError,
> {
    match spec_variable(s, pos) {
        Err(e) => Err(e),
        Ok((target, next)) => Ok((spec_reading(kind, target), next)),
    }
}

pub fn read(s: &Vec<char>, pos: usize, kind: Keyword) -> (r: Result<(Node, usize), SyntaxError>)
    requires
        pos <= s.len(),
    ensures
        found(r) == spec_read(s@, pos as int, kind),
        r is Ok ==> pos <= r.unwrap().1 <= s.len() && is_statement(r.unwrap().0@)
            && well_formed(r.unwrap().0@),
{
    match variable(s, pos) {
        Err(e) => Err(e),
        Ok((target, next)) => match kind {
            Keyword::ReadBoolean => Ok((Node::ReadBoolean(Box::new(target)), next)),
            Keyword::ReadString => Ok((Node::ReadString(Box::new(target)), next)),
            _ => Ok((Node::ReadFloat(Box::new(target)), next)),
        },
    }
}

/// A print statement whose phrase ends before `pos`.
pub open spec fn spec_print(s: Seq<char>, pos: int) -> Result<(NodeView, int), SyntaxError> {
    match spec_value(s, pos) {
        Err(e) => Err(e),
        Ok((shown, next)) => Ok((NodeView::Print(Box::new(shown)), next)),
    }
}

/// A return statement whose phrase ends before `pos`.
pub open spec fn spec_return(s: Seq<char>, pos: int) -> Result<(NodeView, int), SyntaxError> {
    match spec_value(s, pos) {
        Err(e) => Err(e),
        Ok((given, next)) => Ok((NodeView::Return(Box::new(given)), next)),
    }
}

/// What stands before a `Result` that may hold nothing.
pub open spec fn spec_some(r: Result<(NodeView, int), SyntaxError>) -> Result<
    Option<(NodeView, int)>,
    SyntaxError,
> {
    match r {
        Ok(x) => Ok(Some(x)),
        Err(e) => Err(e),
    }
}

fn some(r: Result<(Node, usize), SyntaxError>) -> (o: Result<Option<(Node, usize)>, SyntaxError>)
    ensures
        found_or_not(o) == spec_some(found(r)),
        r is Ok ==> o is Ok && o.unwrap() == Some(r.unwrap()),
        r is Err ==> o is Err,
{
    match r {
        Ok(x) => Ok(Some(x)),
        Err(e) => Err(e),
    }
}

/// A statement at `pos` that holds no other statement, if one stands
/// there.
pub open spec fn spec_simple(s: Seq<char>, pos: int) -> Result<
    Option<(NodeView, int)>,
    SyntaxError,
> {
    if spec_word(s, pos, Keyword::Print) is Some {
        spec_some(spec_print(s, spec_word(s, pos, Keyword::Print).unwrap()))
    } else if spec_word(s, pos, Keyword::Return) is Some {
        spec_some(spec_return(s, spec_word(s, pos, Keyword::Return).unwrap()))
    } else if spec_word(s, pos, Keyword::Assign) is Some {
        spec_some(spec_assignment(s, spec_word(s, pos, Keyword::Assign).unwrap()))
    } else if spec_word(s, pos, Keyword::Capture) is Some {
        spec_some(spec_capture(s, spec_word(s, pos, Keyword::Capture).unwrap()))
    } else if spec_word(s, pos, Keyword::Call) is Some {
        spec_some(spec_call(s, spec_word(s, pos, Keyword::Call).unwrap()))
    } else if spec_word(s, pos, Keyword::DeclareFloat) is Some {
        spec_some(
            spec_declaration(
                s,
                spec_word(s, pos, Keyword::DeclareFloat).unwrap(),
                Keyword::DeclareFloat,
            ),
        )
    } else if spec_word(s, pos, Keyword::DeclareString) is Some {
        spec_some(
            spec_declaration(
                s,
                spec_word(s, pos, Keyword::DeclareString).unwrap(),
                Keyword::DeclareString,
            ),
        )
    } else if spec_word(s, pos, Keyword::DeclareBoolean) is Some {
        spec_some(
            spec_declaration(
                s,
                spec_word(s, pos, Keyword::DeclareBoolean).unwrap(),
                Keyword::DeclareBoolean,
            ),
        )
    } else if spec_word(s, pos, Keyword::ReadFloat) is Some {
        spec_some(spec_read(s, spec_word(s, pos, Keyword::ReadFloat).unwrap(), Keyword::ReadFloat))
    } else if spec_word(s, pos, Keyword::ReadString) is Some {
        spec_some(
            spec_read(s, spec_word(s, pos, Keyword::ReadString).unwrap(), Keyword::ReadString),
        )
    } else if spec_word(s, pos, Keyword::ReadBoolean) is Some {
        spec_some(
            spec_read(s, spec_word(s, pos, Keyword::ReadBoolean).unwrap(), Keyword::ReadBoolean),
        )
    } else {
        Ok(None)
    }
}

pub fn simple(s: &Vec<char>, pos: usize) -> (r: Result<Option<(Node, usize)>, SyntaxError>)
    requires
        pos <= s.len(),
    ensures
        found_or_not(r) == spec_simple(s@, pos as int),
        r is Ok && r.unwrap() is Some ==> {
            let (node, next) = r.unwrap().unwrap();
            &&& pos < next <= s.len()
            &&& is_statement(node@)
            &&& well_formed(node@)
        },
{
    if let Some(next) = word(s, pos, Keyword::Print) {
        match value(s, next) {
            Err(e) => Err(e),
            Ok((shown, next)) => Ok(Some((Node::Print(Box::new(shown)), next))),
        }
    } else if let Some(next) = word(s, pos, Keyword::Return) {
        match value(s, next) {
            Err(e) => Err(e),
            Ok((given, next)) => Ok(Some((Node::Return(Box::new(given)), next))),
        }
    } else if let Some(next) = word(s, pos, Keyword::Assign) {
        some(assignment(s, next))
    } else if let Some(next) = word(s, pos, Keyword::Capture) {
        some(capture(s, next))
    } else if let Some(next) = word(s, pos, Keyword::Call) {
        some(call(s, next))
    } else if let Some(next) = word(s, pos, Keyword::DeclareFloat) {
        some(declaration(s, next, Keyword::DeclareFloat))
    } else if let Some(next) = word(s, pos, Keyword::DeclareString) {
        some(declaration(s, next, Keyword::DeclareString))
    } else if let Some(next) = word(s, pos, Keyword::DeclareBoolean) {
        some(declaration(s, next, Keyword::DeclareBoolean))
    } else if let Some(next) = word(s, pos, Keyword::ReadFloat) {
        some(read(s, next, Keyword::ReadFloat))
    } else if let Some(next) = word(s, pos, Keyword::ReadString) {
        some(read(s, next, Keyword::ReadString))
    } else if let Some(next) = word(s, pos, Keyword::ReadBoolean) {
        some(read(s, next, Keyword::ReadBoolean))
    } else {
        Ok(None)
    }
}

/// The statements of a block that starts at `pos`, inside a statement
/// that starts at `start`.
pub open spec fn spec_block(s: Seq<char>, start: int, pos: int) -> Result<
    (Seq<NodeView>, int),
    SyntaxError,
>
    decreases s.len() - start, 0int,
{
    if spec_advances(s, start, pos) {
        spec_statements(s, pos, Seq::empty())
    } else {
        Ok((Seq::empty(), pos))
    }
}

/// A conditional that starts at `start` and whose phrase ends before
/// `pos`: the condition, the statements to run when it holds, optionally
/// the separating phrase and the statements to run otherwise, and the
/// closing phrase.
pub open spec fn spec_conditional(s: Seq<char>, start: int, pos: int) -> Result<
    (NodeView, int),
    SyntaxError,
>
    decreases s.len() - start, 1int,
{
    match spec_value(s, pos) {
        Err(e) => Err(e),
        Ok((condition, at_accepted)) => match spec_block(s, start, at_accepted) {
            Err(e) => Err(e),
            Ok((accepted, at_else)) => match spec_word(s, at_else, Keyword::Else) {
                Some(at_rejected) => match spec_block(s, start, at_rejected) {
                    Err(e) => Err(e),
                    Ok((rejected, at_end)) => match spec_demand(s, at_end, Keyword::EndIf) {
                        Err(e) => Err(e),
                        Ok(next) => Ok(
                            (NodeView::If(Box::new(condition), accepted, rejected), next),
                        ),
                    },
                },
                None => match spec_demand(s, at_else, Keyword::EndIf) {
                    Err(e) => Err(e),
                    Ok(next) => Ok(
                        (NodeView::If(Box::new(condition), accepted, Seq::empty()), next),
                    ),
                },
            },
        },
    }
}

/// A condition loop that starts at `start` and whose phrase ends before
/// `pos`: the condition, the body, and the closing phrase.
pub open spec fn spec_loop(s: Seq<char>, start: int, pos: int) -> Result<
    (NodeView, int),
    SyntaxError,
>
    decreases s.len() - start, 1int,
{
    match spec_value(s, pos) {
        Err(e) => Err(e),
        Ok((condition, at_body)) => match spec_block(s, start, at_body) {
            Err(e) => Err(e),
            Ok((body, at_end)) => match spec_demand(s, at_end, Keyword::EndWhile) {
                Err(e) => Err(e),
                Ok(next) => Ok((NodeView::While(Box::new(condition), body), next)),
            },
        },
    }
}

/// A counted loop that starts at `start` and whose phrase ends before
/// `pos`: the count, the phrase and name of the loop variable, the body,
/// and the closing phrase.
pub open spec fn spec_counted(s: Seq<char>, start: int, pos: int) -> Result<
    (NodeView, int),
    SyntaxError,
>
    decreases s.len() - start, 1int,
{
    match spec_value(s, pos) {
        Err(e) => Err(e),
        Ok((count, at_phrase)) => match spec_demand(s, at_phrase, Keyword::Counter) {
            Err(e) => Err(e),
            Ok(at_name) => match spec_variable(s, at_name) {
                Err(e) => Err(e),
                Ok((counter, at_body)) => match spec_block(s, start, at_body) {
                    Err(e) => Err(e),
                    Ok((body, at_end)) => match spec_demand(s, at_end, Keyword::EndFor) {
                        Err(e) => Err(e),
                        Ok(next) => Ok(
                            (NodeView::For(Box::new(count), Box::new(counter), body), next),
                        ),
                    },
                },
            },
        },
    }
}

/// The statement at `pos`, if one stands there, and the position of the
/// token after it.
pub open spec fn spec_statement(s: Seq<char>, pos: int) -> Result<
    Option<(NodeView, int)>,
    SyntaxError,
>
    decreases s.len() - pos, 2int,
{
    match spec_simple(s, pos) {
        Err(e) => Err(e),
        Ok(Some(found)) => Ok(Some(found)),
        Ok(None) => if spec_word(s, pos, Keyword::If) is Some {
            spec_some(spec_conditional(s, pos, spec_word(s, pos, Keyword::If).unwrap()))
        } else if spec_word(s, pos, Keyword::While) is Some {
            spec_some(spec_loop(s, pos, spec_word(s, pos, Keyword::While).unwrap()))
        } else if spec_word(s, pos, Keyword::For) is Some {
            spec_some(spec_counted(s, pos, spec_word(s, pos, Keyword::For).unwrap()))
        } else {
            Ok(None)
        },
    }
}

/// The statements from `pos` on, behind those in `done`, up to the first
/// position at which no statement starts. The phrase that does nothing
/// may stand wherever a statement may, and adds none.
pub open spec fn spec_statements(s: Seq<char>, pos: int, done: Seq<NodeView>) -> Result<
    (Seq<NodeView>, int),
    SyntaxError,
>
    decreases s.len() - pos, 3int,
{
    match spec_word(s, pos, Keyword::Noop) {
        Some(next) => if spec_advances(s, pos, next) {
            spec_statements(s, next, done)
        } else {
            Ok((done, next))
        },
        None => match spec_statement(s, pos) {
            Err(e) => Err(e),
            Ok(None) => Ok((done, pos)),
            Ok(Some((node, next))) => if spec_advances(s, pos, next) {
                spec_statements(s, next, done.push(node))
            } else {
                Ok((done.push(node), next))
            },
        },
    }
}

fn block(s: &Vec<char>, start: usize, pos: usize) -> (r: Result<(Vec<Node>, usize), SyntaxError>)
    requires
        start < pos <= s.len(),
    ensures
        found_all(r) == spec_block(s@, start as int, pos as int),
        r is Ok ==> pos <= r.unwrap().1 <= s.len() && are_statements(nodes_view(r.unwrap().0@)),
    decreases s.len() - start, 0int,
{
    statements(s, pos)
}

fn conditional(s: &Vec<char>, start: usize, pos: usize) -> (r: Result<(Node, usize), SyntaxError>)
    requires
        start < pos <= s.len(),
    ensures
        found(r) == spec_conditional(s@, start as int, pos as int),
        r is Ok ==> pos <= r.unwrap().1 <= s.len() && r.unwrap().0@ is If && well_formed(
            r.unwrap().0@,
        ),
    decreases s.len() - start, 1int,
{
    let (condition, at_accepted) = match value(s, pos) {
        Err(e) => { return Err(e); },
        Ok(x) => x,
    };
    let (accepted, at_else) = match block(s, start, at_accepted) {
        Err(e) => { return Err(e); },
        Ok(x) => x,
    };
    match word(s, at_else, Keyword::Else) {
        Some(at_rejected) => {
            let (rejected, at_end) = match block(s, start, at_rejected) {
                Err(e) => { return Err(e); },
                Ok(x) => x,
            };
            match demand(s, at_end, Keyword::EndIf) {
                Err(e) => Err(e),
                Ok(next) => Ok((Node::If(Box::new(condition), accepted, rejected), next)),
            }
        },
        None => match demand(s, at_else, Keyword::EndIf) {
            Err(e) => Err(e),
            Ok(next) => {
                let rejected: Vec<Node> = Vec::new();
                proof {
                    assert(nodes_view(rejected@) =~= Seq::empty());
                    assert(are_statements(nodes_view(rejected@)));
                }
                Ok((Node::If(Box::new(condition), accepted, rejected), next))
            },
        },
    }
}

fn condition_loop(s: &Vec<char>, start: usize, pos: usize) -> (r: Result<
    (Node, usize),
    SyntaxError,
>)
    requires
        start < pos <= s.len(),
    ensures
        found(r) == spec_loop(s@, start as int, pos as int),
        r is Ok ==> pos <= r.unwrap().1 <= s.len() && r.unwrap().0@ is While && well_formed(
            r.unwrap().0@,
        ),
    decreases s.len() - start, 1int,
{
    let (condition, at_body) = match value(s, pos) {
        Err(e) => { return Err(e); },
        Ok(x) => x,
    };
    let (body, at_end) = match block(s, start, at_body) {
        Err(e) => { return Err(e); },
        Ok(x) => x,
    };
    match demand(s, at_end, Keyword::EndWhile) {
        Err(e) => Err(e),
        Ok(next) => Ok((Node::While(Box::new(condition), body), next)),
    }
}

fn counted_loop(s: &Vec<char>, start: usize, pos: usize) -> (r: Result<(Node, usize), SyntaxError>)
    requires
        start < pos <= s.len(),
    ensures
        found(r) == spec_counted(s@, start as int, pos as int),
        r is Ok ==> pos <= r.unwrap().1 <= s.len() && r.unwrap().0@ is For && well_formed(
            r.unwrap().0@,
        ),
    decreases s.len() - start, 1int,
{
    let (count, at_phrase) = match value(s, pos) {
        Err(e) => { return Err(e); },
        Ok(x) => x,
    };
    let at_name = match demand(s, at_phrase, Keyword::Counter) {
        Err(e) => { return Err(e); },
        Ok(x) => x,
    };
    let (counter, at_body) = match variable(s, at_name) {
        Err(e) => { return Err(e); },
        Ok(x) => x,
    };
    let (body, at_end) = match block(s, start, at_body) {
        Err(e) => { return Err(e); },
        Ok(x) => x,
    };
    match demand(s, at_end, Keyword::EndFor) {
        Err(e) => Err(e),
        Ok(next) => Ok((Node::For(Box::new(count), Box::new(counter), body), next)),
    }
}

/// Builds the node of the statement at `pos`, if one stands there.
pub fn build_ast(s: &Vec<char>, pos: usize) -> (r: Result<Option<(Node, usize)>, SyntaxError>)
    requires
        pos <= s.len(),
    ensures
        found_or_not(r) == spec_statement(s@, pos as int),
        r is Ok && r.unwrap() is Some ==> {
            let (node, next) = r.unwrap().unwrap();
            &&& pos < next <= s.len()
            &&& is_statement(node@)
            &&& well_formed(node@)
        },
    decreases s.len() - pos, 2int,
{
    match simple(s, pos) {
        Err(e) => Err(e),
        Ok(Some(found)) => Ok(Some(found)),
        Ok(None) => {
            if let Some(next) = word(s, pos, Keyword::If) {
                some(conditional(s, pos, next))
            } else if let Some(next) = word(s, pos, Keyword::While) {
                some(condition_loop(s, pos, next))
            } else if let Some(next) = word(s, pos, Keyword::For) {
                some(counted_loop(s, pos, next))
            } else {
                Ok(None)
            }
        },
    }
}

/// Builds the nodes of the statements from `pos` on.
pub fn statements(s: &Vec<char>, pos: usize) -> (r: Result<(Vec<Node>, usize), SyntaxError>)
    requires
        pos <= s.len(),
    ensures
        found_all(r) == spec_statements(s@, pos as int, Seq::empty()),
        r is Ok ==> pos <= r.unwrap().1 <= s.len() && are_statements(nodes_view(r.unwrap().0@)),
    decreases s.len() - pos, 3int,
{
    let mut done: Vec<Node> = Vec::new();
    let mut i: usize = pos;
    proof {
        lemma_nodes_view_empty();
    }
    loop
        invariant
            pos <= i <= s.len(),
            spec_statements(s@, pos as int, Seq::empty()) == spec_statements(
                s@,
                i as int,
                nodes_view(done@),
            ),
            are_statements(nodes_view(done@)),
        decreases s.len() - i,
    {
        match word(s, i, Keyword::Noop) {
            Some(next) => {
                i = next;
            },
            None => match build_ast(s, i) {
                Err(e) => {
                    return Err(e);
                },
                Ok(None) => {
                    return Ok((done, i));
                },
                Ok(Some((node, next))) => {
                    proof {
                        lemma_nodes_view_push(done@, node);
                    }
                    done.push(node);
                    i = next;
                },
            },
        }
    }
}

/// A function declaration whose phrase ends before `pos`: the name, the
/// parameters, optionally the phrase that marks a function without a
/// result, the body, and the closing phrase.
pub open spec fn spec_function(s: Seq<char>, pos: int) -> Result<(NodeView, int), SyntaxError> {
    match spec_name(s, pos) {
        Err(e) => Err(e),
        Ok((function, at_parameters)) => match spec_parameters(s, at_parameters, Seq::empty()) {
            Err(e) => Err(e),
            Ok((names, at_mark)) => {
                let void = spec_word(s, at_mark, Keyword::Void) is Some;
                let at_body = if void {
                    spec_word(s, at_mark, Keyword::Void).unwrap()
                } else {
                    at_mark
                };
                match spec_statements(s, at_body, Seq::empty()) {
                    Err(e) => Err(e),
                    Ok((body, at_end)) => match spec_demand(s, at_end, Keyword::EndFunction) {
                        Err(e) => Err(e),
                        Ok(next) => Ok(
                            (NodeView::DeclareFunction(function, names, body, void), next),
                        ),
                    },
                }
            },
        },
    }
}

/// Builds the node of a function declaration whose phrase ends before
/// `pos`.
pub fn build_function(s: &Vec<char>, pos: usize) -> (r: Result<(Node, usize), SyntaxError>)
    requires
        pos <= s.len(),
    ensures
        found(r) == spec_function(s@, pos as int),
        r is Ok ==> {
            &&& pos < r.unwrap().1 <= s.len()
            &&& r.unwrap().0@ is DeclareFunction
            &&& well_formed(r.unwrap().0@)
        },
{
    let (function, at_parameters) = match name(s, pos) {
        Err(e) => { return Err(e); },
        Ok(x) => x,
    };
    let (names, at_mark) = match parameters(s, at_parameters) {
        Err(e) => { return Err(e); },
        Ok(x) => x,
    };
    let (void, at_body) = match word(s, at_mark, Keyword::Void) {
        Some(next) => (true, next),
        None => (false, at_mark),
    };
    let (body, at_end) = match statements(s, at_body) {
        Err(e) => { return Err(e); },
        Ok(x) => x,
    };
    match demand(s, at_end, Keyword::EndFunction) {
        Err(e) => Err(e),
        Ok(next) => Ok((Node::DeclareFunction(function, names, body, void), next)),
    }
}

/// The entry point, whose phrase ends before `pos`: the statements and
/// the closing phrase, behind which the source ends.
pub open spec fn spec_main(s: Seq<char>, pos: int) -> Result<NodeView, SyntaxError> {
    match spec_statements(s, pos, Seq::empty()) {
        Err(e) => Err(e),
        Ok((body, at_end)) => match spec_demand(s, at_end, Keyword::EndMain) {
            Err(e) => Err(e),
            Ok(next) => if next == s.len() {
                Ok(NodeView::Main(body))
            } else {
                Err(spec_missing(next, Expected::End))
            },
        },
    }
}

fn entry_point(s: &Vec<char>, pos: usize) -> (r: Result<Node, SyntaxError>)
    requires
        pos <= s.len(),
    ensures
        match r {
            Ok(node) => spec_main(s@, pos as int) == Ok::<NodeView, SyntaxError>(node@)
                && node@ is Main && well_formed(node@),
            Err(e) => spec_main(s@, pos as int) == Err::<NodeView, SyntaxError>(e),
        },
{
    let (body, at_end) = match statements(s, pos) {
        Err(e) => { return Err(e); },
        Ok(x) => x,
    };
    match demand(s, at_end, Keyword::EndMain) {
        Err(e) => Err(e),
        Ok(next) => {
            if next == s.len() {
                Ok(Node::Main(body))
            } else {
                Err(missing(next, Expected::End))
            }
        },
    }
}

/// The top level of a source from `pos` on, behind the function
/// declarations in `done`: more function declarations and then the entry
/// point; or nothing at all, where nothing came before.
pub open spec fn spec_entries(s: Seq<char>, pos: int, done: Seq<NodeView>) -> Result<
    Seq<NodeView>,
    SyntaxError,
>
    decreases s.len() - pos,
{
    match spec_word(s, pos, Keyword::Function) {
        Some(at_name) => match spec_function(s, at_name) {
            Err(e) => Err(e),
            Ok((function, next)) => if spec_advances(s, pos, next) {
                spec_entries(s, next, done.push(function))
            } else {
                Err(spec_missing(pos, Expected::Entry))
            },
        },
        None => match spec_word(s, pos, Keyword::Main) {
            Some(at_body) => match spec_main(s, at_body) {
                Err(e) => Err(e),
                Ok(main) => Ok(done.push(main)),
            },
            None => if pos == s.len() && done.len() == 0 {
                Ok(done)
            } else {
                Err(spec_missing(pos, Expected::Entry))
            },
        },
    }
}

/// What a source denotes: the nodes of its top level, or the reason why
/// it is not a program.
pub open spec fn spec_program(s: Seq<char>) -> Result<Seq<NodeView>, SyntaxError> {
    spec_entries(s, spec_skip(s, 0), Seq::empty())
}

/// The shape of a parsed program: nothing at all, or function
/// declarations followed by exactly one entry point, every node
/// well-formed.
pub open spec fn is_program(nodes: Seq<NodeView>) -> bool {
    &&& forall|i: int| 0 <= i < nodes.len() ==> well_formed(#[trigger] nodes[i])
    &&& forall|i: int| 0 <= i < nodes.len() - 1 ==> #[trigger] nodes[i] is DeclareFunction
    &&& nodes.len() > 0 ==> nodes[nodes.len() - 1] is Main
}

/// Parses a source. The result is what `spec_program` defines: on
/// success the nodes of the top level, which have the shape
/// `is_program`; else the first construct that was expected and not
/// found, with its place.
pub fn parse(source: &str) -> (r: Result<Vec<Node>, SyntaxError>)
    ensures
        match r {
            Ok(nodes) => spec_program(source@) == Ok::<Seq<NodeView>, SyntaxError>(
                nodes_view(nodes@),
            ) && is_program(nodes_view(nodes@)),
            Err(e) => spec_program(source@) == Err::<Seq<NodeView>, SyntaxError>(e),
        },
{
    let s = to_chars(source);
    let mut done: Vec<Node> = Vec::new();
    let mut i: usize = skip(&s, 0);
    proof {
        lemma_nodes_view_empty();
    }
    loop
        invariant
            i <= s.len(),
            s@ == source@,
            spec_program(source@) == spec_entries(s@, i as int, nodes_view(done@)),
            forall|k: int|
                0 <= k < done.len() ==> well_formed(#[trigger] nodes_view(done@)[k]) && nodes_view(
                    done@,
                )[k] is DeclareFunction,
        decreases s.len() - i,
    {
        match word(&s, i, Keyword::Function) {
            Some(at_name) => match build_function(&s, at_name) {
                Err(e) => {
                    return Err(e);
                },
                Ok((function, next)) => {
                    proof {
                        lemma_nodes_view_push(done@, function);
                    }
                    done.push(function);
                    i = next;
                },
            },
            None => match word(&s, i, Keyword::Main) {
                Some(at_body) => match entry_point(&s, at_body) {
                    Err(e) => {
                        return Err(e);
                    },
                    Ok(main) => {
                        proof {
                            lemma_nodes_view_push(done@, main);
                        }
                        done.push(main);
                        return Ok(done);
                    },
                },
                None => {
                    if i == s.len() && done.len() == 0 {
                        return Ok(done);
                    } else {
                        return Err(missing(i, Expected::Entry));
                    }
                },
            },
        }
    }
}

/// What an error's `expected` says, in words. A phrase is given as it is
/// written.
pub open spec fn spec_describe(expected: Expected) -> Seq<char> {
    match expected {
        Expected::Entry => "a function, the entry point, or the end of the source"@,
        Expected::Phrase(k) => spec_phrase(k),
        Expected::Name => "a name"@,
        Expected::Value => "a value"@,
        Expected::Number => "a numeric literal"@,
        Expected::Text => "a string literal"@,
        Expected::Boolean => "a boolean literal"@,
        Expected::Quote => "the closing quote of a string literal"@,
        Expected::Escape => "an escape sequence"@,
        Expected::End => "the end of the source"@,
    }
}

pub fn describe(expected: Expected) -> (r: &'static str)
    ensures
        r@ == spec_describe(expected),
{
    match expected {
        Expected::Entry => "a function, the entry point, or the end of the source",
        Expected::Phrase(k) => phrase(k),
        Expected::Name => "a name",
        Expected::Value => "a value",
        Expected::Number => "a numeric literal",
        Expected::Text => "a string literal",
        Expected::Boolean => "a boolean literal",
        Expected::Quote => "the closing quote of a string literal",
        Expected::Escape => "an escape sequence",
        Expected::End => "the end of the source",
    }
}

/// The line and the column of the character at `offset`, both counted
/// from zero: the number of line feeds before it, and the number of
/// characters between the last of them and it. An offset behind the end
/// of the source counts as the end.
pub open spec fn spec_locate(s: Seq<char>, offset: int) -> (int, int)
    decreases offset,
{
    if offset <= 0 {
        (0, 0)
    } else if offset > s.len() {
        spec_locate(s, offset - 1)
    } else {
        let (line, column) = spec_locate(s, offset - 1);
        if s[offset - 1] == '\n' {
            (line + 1, 0)
        } else {
            (line, column + 1)
        }
    }
}

pub fn locate(source: &str, offset: usize) -> (r: (usize, usize))
    ensures
        r.0 == spec_locate(source@, offset as int).0,
        r.1 == spec_locate(source@, offset as int).1,
{
    let s = to_chars(source);
    let mut line: usize = 0;
    let mut column: usize = 0;
    let mut i: usize = 0;
    while i < offset && i < s.len()
        invariant
            i <= offset,
            i <= s.len(),
            s@ == source@,
            line <= i,
            column <= i,
            (line as int, column as int) == spec_locate(s@, i as int),
        decreases s.len() - i,
    {
        if s[i] == '\n' {
            line += 1;
            column = 0;
        } else {
            column += 1;
        }
        i += 1;
    }
    proof {
        lemma_locate_past_end(s@, i as int, offset as int);
    }
    (line, column)
}

proof fn lemma_locate_past_end(s: Seq<char>, end: int, offset: int)
    requires
        0 <= end <= offset,
        end == offset || end == s.len(),
    ensures
        spec_locate(s, offset) == spec_locate(s, end),
    decreases offset - end,
{
    if end < offset {
        lemma_locate_past_end(s, end, offset - 1);
    }
}

} // verus!
