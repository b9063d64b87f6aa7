//! What holds of the grammar.
use vstd::prelude::*;
use crate::ast::NodeView;
use crate::number::{spec_alias, spec_decimal, spec_digits_end, spec_numeral};
use crate::parser::{spec_boolean, spec_declaration, spec_declared, spec_demand, spec_initial,
    spec_main, spec_missing, spec_name, spec_number, spec_program, spec_simple, spec_statement,
    spec_statements, spec_text, spec_value, spec_word, Expected, SyntaxError};
use crate::progress::lemma_simple_advances;
use crate::text::{spec_at, spec_is_digit, spec_skip};
use crate::vocabulary::{spec_phrase, Keyword};

verus! {

/// A word that stands at a position agrees with the source character by
/// character.
pub proof fn lemma_at_char(s: Seq<char>, pos: int, word: Seq<char>, k: int)
    requires
        spec_at(s, pos, word),
        0 <= k < word.len(),
    ensures
        s[pos + k] == word[k],
{
    assert(s.subrange(pos, pos + word.len())[k] == s[pos + k]);
}

/// A numeric literal begins with a digit, a minus sign, or one of the
/// letters `I` and `V`.
pub proof fn lemma_numeral_start(s: Seq<char>, pos: int)
    requires
        spec_numeral(s, pos) is Some,
    ensures
        0 <= pos < s.len(),
        spec_is_digit(s[pos]) || s[pos] == '-' || s[pos] == 'I' || s[pos] == 'V',
{
    if spec_decimal(s, pos) is Some {
        let negative = 0 <= pos < s.len() && s[pos] == '-';
        if !negative {
            assert(spec_digits_end(s, pos) != pos);
        }
    } else {
        assert(spec_alias(s, pos) is Some);
        reveal_strlit("IX");
        reveal_strlit("VIII");
        reveal_strlit("VII");
        reveal_strlit("VI");
        reveal_strlit("V");
        reveal_strlit("IV");
        reveal_strlit("III");
        reveal_strlit("II");
        reveal_strlit("I");
        if spec_at(s, pos, "IX"@) {
            lemma_at_char(s, pos, "IX"@, 0);
        } else if spec_at(s, pos, "VIII"@) {
            lemma_at_char(s, pos, "VIII"@, 0);
        } else if spec_at(s, pos, "VII"@) {
            lemma_at_char(s, pos, "VII"@, 0);
        } else if spec_at(s, pos, "VI"@) {
            lemma_at_char(s, pos, "VI"@, 0);
        } else if spec_at(s, pos, "V"@) {
            lemma_at_char(s, pos, "V"@, 0);
        } else if spec_at(s, pos, "IV"@) {
            lemma_at_char(s, pos, "IV"@, 0);
        } else if spec_at(s, pos, "III"@) {
            lemma_at_char(s, pos, "III"@, 0);
        } else if spec_at(s, pos, "II"@) {
            lemma_at_char(s, pos, "II"@, 0);
        } else {
            lemma_at_char(s, pos, "I"@, 0);
        }
    }
}

/// A boolean literal begins with one of the letters `F` and `T`.
pub proof fn lemma_boolean_start(s: Seq<char>, pos: int)
    requires
        spec_boolean(s, pos) is Ok,
    ensures
        0 <= pos < s.len(),
        s[pos] == 'F' || s[pos] == 'T',
{
    reveal_strlit("From a certain point of view.");
    reveal_strlit("That's impossible!");
    if spec_word(s, pos, Keyword::True) is Some {
        lemma_at_char(s, pos, spec_phrase(Keyword::True), 0);
    } else {
        lemma_at_char(s, pos, spec_phrase(Keyword::False), 0);
    }
}

/// The three kinds of literal are apart: where a literal of one kind
/// stands, none of another kind does.
pub proof fn law_literal_kinds_apart(s: Seq<char>, pos: int)
    ensures
        !(spec_text(s, pos) is Ok && spec_number(s, pos) is Ok),
        !(spec_text(s, pos) is Ok && spec_boolean(s, pos) is Ok),
        !(spec_number(s, pos) is Ok && spec_boolean(s, pos) is Ok),
{
    if spec_number(s, pos) is Ok {
        lemma_numeral_start(s, pos);
    }
    if spec_boolean(s, pos) is Ok {
        lemma_boolean_start(s, pos);
    }
}

/// What a declaration asks its initial value to be.
pub open spec fn spec_wanted(kind: Keyword) -> Expected {
    match kind {
        Keyword::DeclareBoolean => Expected::Boolean,
        Keyword::DeclareString => Expected::Text,
        _ => Expected::Number,
    }
}

/// Whether a literal of the kind that the declaring phrase does not ask
/// for stands at a position.
pub open spec fn spec_other_literal(s: Seq<char>, pos: int, kind: Keyword) -> bool {
    match kind {
        Keyword::DeclareBoolean => spec_text(s, pos) is Ok || spec_number(s, pos) is Ok,
        Keyword::DeclareString => spec_boolean(s, pos) is Ok || spec_number(s, pos) is Ok,
        _ => spec_text(s, pos) is Ok || spec_boolean(s, pos) is Ok,
    }
}

/// A declaration whose initial value is a literal of another kind than
/// the declared one is a syntax error at the literal: declaring a
/// numeric variable with a string literal, for one, is refused by the
/// grammar, and so never reaches the interpreter.
pub proof fn law_mismatched_declaration(s: Seq<char>, pos: int, kind: Keyword)
    requires
        kind == Keyword::DeclareFloat || kind == Keyword::DeclareString || kind
            == Keyword::DeclareBoolean,
        spec_name(s, pos) is Ok,
        spec_demand(s, spec_name(s, pos).unwrap().1, Keyword::Initial) is Ok,
        spec_other_literal(
            s,
            spec_demand(s, spec_name(s, pos).unwrap().1, Keyword::Initial).unwrap(),
            kind,
        ),
    ensures
        spec_declaration(s, pos, kind) == Err::<(NodeView, int), SyntaxError>(
            spec_missing(
                spec_demand(s, spec_name(s, pos).unwrap().1, Keyword::Initial).unwrap(),
                spec_wanted(kind),
            ),
        ),
{
    let at_value = spec_demand(s, spec_name(s, pos).unwrap().1, Keyword::Initial).unwrap();
    law_literal_kinds_apart(s, at_value);
    if spec_number(s, at_value) is Ok {
        lemma_numeral_start(s, at_value);
    }
    if spec_boolean(s, at_value) is Ok {
        lemma_boolean_start(s, at_value);
    }
}

/// A declaration that the grammar accepts has an initial value of the
/// declared kind.
pub proof fn law_declaration_kind(s: Seq<char>, pos: int, kind: Keyword)
    requires
        kind == Keyword::DeclareFloat || kind == Keyword::DeclareString || kind
            == Keyword::DeclareBoolean,
        spec_declaration(s, pos, kind) is Ok,
    ensures
        match spec_declaration(s, pos, kind).unwrap().0 {
            NodeView::DeclareFloat(_, initial) => kind == Keyword::DeclareFloat
                && *initial is Float,
            NodeView::DeclareString(_, initial) => kind == Keyword::DeclareString
                && *initial is String,
            NodeView::DeclareBoolean(_, initial) => kind == Keyword::DeclareBoolean
                && *initial is Boolean,
            _ => false,
        },
{
}

/// An error among the statements of the entry point is the error of the
/// whole source.
pub proof fn law_entry_error_is_final(s: Seq<char>, e: SyntaxError)
    requires
        spec_word(s, spec_skip(s, 0), Keyword::Function) is None,
        spec_word(s, spec_skip(s, 0), Keyword::Main) is Some,
        spec_statements(
            s,
            spec_word(s, spec_skip(s, 0), Keyword::Main).unwrap(),
            Seq::empty(),
        ) == Err::<(Seq<NodeView>, int), SyntaxError>(e),
    ensures
        spec_program(s) == Err::<Seq<NodeView>, SyntaxError>(e),
{
}

/// An error of the statement at a position is the error of the
/// statements from that position on.
pub proof fn law_statement_error_is_final(
    s: Seq<char>,
    pos: int,
    done: Seq<NodeView>,
    e: SyntaxError,
)
    requires
        spec_word(s, pos, Keyword::Noop) is None,
        spec_statement(s, pos) == Err::<Option<(NodeView, int)>, SyntaxError>(e),
    ensures
        spec_statements(s, pos, done) == Err::<(Seq<NodeView>, int), SyntaxError>(e),
{
}

/// Whether a statement, or the phrase that does nothing, starts at a
/// position.
pub open spec fn spec_opens_statement(s: Seq<char>, pos: int) -> bool {
    spec_word(s, pos, Keyword::Print) is Some
        || spec_word(s, pos, Keyword::Return) is Some
        || spec_word(s, pos, Keyword::Assign) is Some
        || spec_word(s, pos, Keyword::Capture) is Some
        || spec_word(s, pos, Keyword::Call) is Some
        || spec_word(s, pos, Keyword::DeclareFloat) is Some
        || spec_word(s, pos, Keyword::DeclareString) is Some
        || spec_word(s, pos, Keyword::DeclareBoolean) is Some
        || spec_word(s, pos, Keyword::ReadFloat) is Some
        || spec_word(s, pos, Keyword::ReadString) is Some
        || spec_word(s, pos, Keyword::ReadBoolean) is Some
        || spec_word(s, pos, Keyword::If) is Some
        || spec_word(s, pos, Keyword::While) is Some
        || spec_word(s, pos, Keyword::For) is Some
        || spec_word(s, pos, Keyword::Noop) is Some
}

/// Whether one of the phrases that close a block, or the phrase that
/// separates the branches of a conditional, stands at a position.
pub open spec fn spec_closes_block(s: Seq<char>, pos: int) -> bool {
    spec_word(s, pos, Keyword::EndMain) is Some
        || spec_word(s, pos, Keyword::EndFunction) is Some
        || spec_word(s, pos, Keyword::EndIf) is Some
        || spec_word(s, pos, Keyword::Else) is Some
        || spec_word(s, pos, Keyword::EndWhile) is Some
        || spec_word(s, pos, Keyword::EndFor) is Some
}

/// The first four characters of a phrase that stands at a position.
proof fn lemma_phrase_start(s: Seq<char>, pos: int, k: Keyword)
    requires
        spec_word(s, pos, k) is Some,
        spec_phrase(k).len() >= 4,
    ensures
        s[pos] == spec_phrase(k)[0],
        s[pos + 1] == spec_phrase(k)[1],
        s[pos + 2] == spec_phrase(k)[2],
        s[pos + 3] == spec_phrase(k)[3],
{
    lemma_at_char(s, pos, spec_phrase(k), 0);
    lemma_at_char(s, pos, spec_phrase(k), 1);
    lemma_at_char(s, pos, spec_phrase(k), 2);
    lemma_at_char(s, pos, spec_phrase(k), 3);
}

/// Where a block is closed, no statement starts.
pub proof fn law_closing_is_no_statement(s: Seq<char>, pos: int)
    requires
        spec_closes_block(s, pos),
    ensures
        !spec_opens_statement(s, pos),
        spec_word(s, pos, Keyword::Noop) is None,
        spec_statement(s, pos) == Ok::<Option<(NodeView, int)>, SyntaxError>(None),
{
    reveal_strlit("The Sacred Jedi Texts!");
    reveal_strlit("You're all clear, kid. Now let's blow this thing and go home.");
    reveal_strlit("What a piece of junk!");
    reveal_strlit("Many Bothans died to bring us this information.");
    reveal_strlit("I have a bad feeling about this.");
    reveal_strlit("Size matters not.");
    reveal_strlit("Yoda. You seek Yoda.");
    reveal_strlit("I am the Senate!");
    reveal_strlit("Now this is podracing!");
    reveal_strlit("Looking? Found someone, you have, I would say.");
    reveal_strlit("I hope you know what you're doing.");
    reveal_strlit("Do, or do not. There is no try.");
    reveal_strlit("Here we go again.");
    reveal_strlit("For over a thousand generations.");
    reveal_strlit("Move along. Move along.");
    reveal_strlit("May The Force be with you.");
    reveal_strlit("You cannot escape your destiny.");
    reveal_strlit("You have failed me for the last time.");
    reveal_strlit("These aren't the droids you're looking for.");
    reveal_strlit("Let the past die.");
    reveal_strlit("It is clear to me now the Republic no longer functions.");
    if spec_word(s, pos, Keyword::Print) is Some {
        lemma_phrase_start(s, pos, Keyword::Print);
    }
    if spec_word(s, pos, Keyword::Return) is Some {
        lemma_phrase_start(s, pos, Keyword::Return);
    }
    if spec_word(s, pos, Keyword::Assign) is Some {
        lemma_phrase_start(s, pos, Keyword::Assign);
    }
    if spec_word(s, pos, Keyword::Capture) is Some {
        lemma_phrase_start(s, pos, Keyword::Capture);
    }
    if spec_word(s, pos, Keyword::Call) is Some {
        lemma_phrase_start(s, pos, Keyword::Call);
    }
    if spec_word(s, pos, Keyword::DeclareFloat) is Some {
        lemma_phrase_start(s, pos, Keyword::DeclareFloat);
    }
    if spec_word(s, pos, Keyword::DeclareString) is Some {
        lemma_phrase_start(s, pos, Keyword::DeclareString);
    }
    if spec_word(s, pos, Keyword::DeclareBoolean) is Some {
        lemma_phrase_start(s, pos, Keyword::DeclareBoolean);
    }
    if spec_word(s, pos, Keyword::ReadFloat) is Some {
        lemma_phrase_start(s, pos, Keyword::ReadFloat);
    }
    if spec_word(s, pos, Keyword::ReadString) is Some {
        lemma_phrase_start(s, pos, Keyword::ReadString);
    }
    if spec_word(s, pos, Keyword::ReadBoolean) is Some {
        lemma_phrase_start(s, pos, Keyword::ReadBoolean);
    }
    if spec_word(s, pos, Keyword::If) is Some {
        lemma_phrase_start(s, pos, Keyword::If);
    }
    if spec_word(s, pos, Keyword::While) is Some {
        lemma_phrase_start(s, pos, Keyword::While);
    }
    if spec_word(s, pos, Keyword::For) is Some {
        lemma_phrase_start(s, pos, Keyword::For);
    }
    if spec_word(s, pos, Keyword::Noop) is Some {
        lemma_phrase_start(s, pos, Keyword::Noop);
    }
    if spec_word(s, pos, Keyword::EndMain) is Some {
        lemma_phrase_start(s, pos, Keyword::EndMain);
    }
    if spec_word(s, pos, Keyword::EndFunction) is Some {
        lemma_phrase_start(s, pos, Keyword::EndFunction);
    }
    if spec_word(s, pos, Keyword::EndIf) is Some {
        lemma_phrase_start(s, pos, Keyword::EndIf);
    }
    if spec_word(s, pos, Keyword::Else) is Some {
        lemma_phrase_start(s, pos, Keyword::Else);
    }
    if spec_word(s, pos, Keyword::EndWhile) is Some {
        lemma_phrase_start(s, pos, Keyword::EndWhile);
    }
    if spec_word(s, pos, Keyword::EndFor) is Some {
        lemma_phrase_start(s, pos, Keyword::EndFor);
    }
}

/// Whether nothing but phrases that do nothing, blanks and comments
/// stand between two positions.
pub open spec fn spec_idles(s: Seq<char>, pos: int, end: int) -> bool
    decreases s.len() - pos,
{
    pos == end || match spec_word(s, pos, Keyword::Noop) {
        Some(next) => pos < next <= s.len() && spec_idles(s, next, end),
        None => false,
    }
}

/// Phrases that do nothing add no statement.
pub proof fn lemma_idles_add_nothing(s: Seq<char>, pos: int, end: int, done: Seq<NodeView>)
    requires
        spec_idles(s, pos, end),
        spec_closes_block(s, end),
    ensures
        spec_statements(s, pos, done) == Ok::<(Seq<NodeView>, int), SyntaxError>((done, end)),
    decreases s.len() - pos,
{
    if pos == end {
        law_closing_is_no_statement(s, end);
    } else {
        let next = spec_word(s, pos, Keyword::Noop).unwrap();
        lemma_idles_add_nothing(s, next, end, done);
    }
}

/// A source whose entry point holds nothing but phrases that do nothing,
/// blanks and comments, or nothing at all, is a program with an empty
/// entry point.
pub proof fn law_idle_entry_point(s: Seq<char>, end: int)
    requires
        spec_word(s, spec_skip(s, 0), Keyword::Main) is Some,
        spec_idles(s, spec_word(s, spec_skip(s, 0), Keyword::Main).unwrap(), end),
        spec_word(s, end, Keyword::EndMain) == Some(s.len() as int),
    ensures
        spec_program(s) == Ok::<Seq<NodeView>, SyntaxError>(seq![NodeView::Main(Seq::empty())]),
{
    let start = spec_skip(s, 0);
    let at_body = spec_word(s, start, Keyword::Main).unwrap();
    reveal_strlit("Do it!");
    reveal_strlit("This is where the fun begins.");
    lemma_at_char(s, start, spec_phrase(Keyword::Main), 0);
    if spec_word(s, start, Keyword::Function) is Some {
        lemma_at_char(s, start, spec_phrase(Keyword::Function), 0);
    }
    lemma_idles_add_nothing(s, at_body, end, Seq::empty());
    assert(spec_main(s, at_body) == Ok::<NodeView, SyntaxError>(NodeView::Main(Seq::empty())));
    assert(Seq::<NodeView>::empty().push(NodeView::Main(Seq::empty())) =~= seq![
        NodeView::Main(Seq::empty()),
    ]);
}

/// A source that holds nothing but blanks and comments is the program of
/// no nodes.
pub proof fn law_blank_source(s: Seq<char>)
    requires
        spec_skip(s, 0) == s.len(),
    ensures
        spec_program(s) == Ok::<Seq<NodeView>, SyntaxError>(Seq::empty()),
{
    reveal_strlit("Do it!");
    reveal_strlit("This is where the fun begins.");
}

/// The phrases with which a statement starts, and the phrase that does
/// nothing.
pub open spec fn spec_is_head(k: Keyword) -> bool {
    k == Keyword::Print
        || k == Keyword::Return
        || k == Keyword::Assign
        || k == Keyword::Capture
        || k == Keyword::Call
        || k == Keyword::DeclareFloat
        || k == Keyword::DeclareString
        || k == Keyword::DeclareBoolean
        || k == Keyword::ReadFloat
        || k == Keyword::ReadString
        || k == Keyword::ReadBoolean
        || k == Keyword::If
        || k == Keyword::While
        || k == Keyword::For
        || k == Keyword::Noop
}

/// Where the phrase of one statement stands, the phrase of no other
/// does.
pub proof fn law_one_head(s: Seq<char>, pos: int, k: Keyword, other: Keyword)
    requires
        spec_is_head(k),
        spec_is_head(other),
        k != other,
        spec_word(s, pos, k) is Some,
    ensures
        spec_word(s, pos, other) is None,
{
    reveal_strlit("The Sacred Jedi Texts!");
    reveal_strlit("You're all clear, kid. Now let's blow this thing and go home.");
    reveal_strlit("What a piece of junk!");
    reveal_strlit("Many Bothans died to bring us this information.");
    reveal_strlit("I have a bad feeling about this.");
    reveal_strlit("Size matters not.");
    reveal_strlit("Yoda. You seek Yoda.");
    reveal_strlit("I am the Senate!");
    reveal_strlit("Now this is podracing!");
    reveal_strlit("Looking? Found someone, you have, I would say.");
    reveal_strlit("I hope you know what you're doing.");
    reveal_strlit("Do, or do not. There is no try.");
    reveal_strlit("Here we go again.");
    reveal_strlit("For over a thousand generations.");
    reveal_strlit("Move along. Move along.");
    lemma_phrase_start(s, pos, k);
    if spec_word(s, pos, other) is Some {
        lemma_phrase_start(s, pos, other);
    }
}

/// The declaration of `kind` for a variable with an initial value.
pub open spec fn spec_declare_print(kind: Keyword, name: Seq<char>, literal: NodeView) -> Seq<
    NodeView,
> {
    seq![
        spec_declared(kind, name, literal),
        NodeView::Print(Box::new(NodeView::Variable(name))),
    ]
}

/// The tokens of a source that declares a variable and prints it: the
/// positions of the declaring phrase, of the name, of the phrase of the
/// initial value, of the literal, of the printing phrase, of the printed
/// name, and of the phrase that closes the entry point.
pub struct Tokens {
    pub declare: int,
    pub name: int,
    pub initial: int,
    pub literal: int,
    pub print: int,
    pub shown: int,
    pub close: int,
}

/// Whether a source is made of the tokens of an entry point that declares
/// a variable of `kind` named `name` with the initial value `literal`
/// and prints the variable, with nothing but blanks and comments between
/// them, before them and after them.
pub open spec fn spec_declares_and_prints(
    s: Seq<char>,
    t: Tokens,
    kind: Keyword,
    name: Seq<char>,
    literal: NodeView,
) -> bool {
    &&& kind == Keyword::DeclareFloat || kind == Keyword::DeclareString || kind
        == Keyword::DeclareBoolean
    &&& spec_word(s, spec_skip(s, 0), Keyword::Main) == Some(t.declare)
    &&& spec_word(s, t.declare, kind) == Some(t.name)
    &&& spec_name(s, t.name) == Ok::<(Seq<char>, int), SyntaxError>((name, t.initial))
    &&& spec_word(s, t.initial, Keyword::Initial) == Some(t.literal)
    &&& spec_initial(s, t.literal, kind) == Ok::<(NodeView, int), SyntaxError>(
        (literal, t.print),
    )
    &&& spec_word(s, t.print, Keyword::Print) == Some(t.shown)
    &&& spec_value(s, t.shown) == Ok::<(NodeView, int), SyntaxError>(
        (NodeView::Variable(name), t.close),
    )
    &&& spec_word(s, t.close, Keyword::EndMain) == Some(s.len() as int)
}

/// A declaration is the statement at the position of its phrase.
proof fn lemma_declaration_statement(
    s: Seq<char>,
    t: Tokens,
    kind: Keyword,
    name: Seq<char>,
    literal: NodeView,
)
    requires
        spec_declares_and_prints(s, t, kind, name, literal),
    ensures
        spec_simple(s, t.declare) == Ok::<Option<(NodeView, int)>, SyntaxError>(
            Some((spec_declared(kind, name, literal), t.print)),
        ),
        spec_word(s, t.declare, Keyword::Noop) is None,
{
    law_heads_before(s, t.declare, kind);
}

/// A print statement is the statement at the position of its phrase.
proof fn lemma_print_statement(s: Seq<char>, pos: int, shown: int, value: NodeView, next: int)
    requires
        spec_word(s, pos, Keyword::Print) == Some(shown),
        spec_value(s, shown) == Ok::<(NodeView, int), SyntaxError>((value, next)),
    ensures
        spec_simple(s, pos) == Ok::<Option<(NodeView, int)>, SyntaxError>(
            Some((NodeView::Print(Box::new(value)), next)),
        ),
        spec_word(s, pos, Keyword::Noop) is None,
{
    law_heads_before(s, pos, Keyword::Print);
}

/// A statement that holds no other statement is added to the statements
/// before it, and the statements go on behind it.
proof fn lemma_simple_is_added(
    s: Seq<char>,
    pos: int,
    done: Seq<NodeView>,
    node: NodeView,
    next: int,
)
    requires
        spec_word(s, pos, Keyword::Noop) is None,
        spec_simple(s, pos) == Ok::<Option<(NodeView, int)>, SyntaxError>(Some((node, next))),
    ensures
        spec_statements(s, pos, done) == spec_statements(s, next, done.push(node)),
{
    lemma_simple_advances(s, pos);
    assert(spec_statement(s, pos) == Ok::<Option<(NodeView, int)>, SyntaxError>(
        Some((node, next)),
    ));
}

/// A source made of the tokens of an entry point that declares a
/// variable with a literal of the declared kind and prints the variable
/// is the program of that entry point.
pub proof fn law_declare_and_print_source(
    s: Seq<char>,
    t: Tokens,
    kind: Keyword,
    name: Seq<char>,
    literal: NodeView,
)
    requires
        spec_declares_and_prints(s, t, kind, name, literal),
    ensures
        spec_program(s) == Ok::<Seq<NodeView>, SyntaxError>(
            seq![NodeView::Main(spec_declare_print(kind, name, literal))],
        ),
{
    let start = spec_skip(s, 0);
    let declaration = spec_declared(kind, name, literal);
    let print = NodeView::Print(Box::new(NodeView::Variable(name)));
    let none = Seq::<NodeView>::empty();
    let body = none.push(declaration).push(print);
    lemma_declaration_statement(s, t, kind, name, literal);
    lemma_simple_is_added(s, t.declare, none, declaration, t.print);
    lemma_print_statement(s, t.print, t.shown, NodeView::Variable(name), t.close);
    lemma_simple_is_added(s, t.print, none.push(declaration), print, t.close);
    law_closing_is_no_statement(s, t.close);
    assert(spec_statements(s, t.close, body) == Ok::<(Seq<NodeView>, int), SyntaxError>(
        (body, t.close),
    ));
    assert(body =~= spec_declare_print(kind, name, literal));
    lemma_entry_point(s, t.declare, t.close, body);
}

/// A source that opens with the entry point, whose statements end where
/// its closing phrase ends the source, is the program of that entry
/// point.
proof fn lemma_entry_point(s: Seq<char>, at_body: int, close: int, body: Seq<NodeView>)
    requires
        spec_word(s, spec_skip(s, 0), Keyword::Main) == Some(at_body),
        spec_statements(s, at_body, Seq::empty()) == Ok::<(Seq<NodeView>, int), SyntaxError>(
            (body, close),
        ),
        spec_word(s, close, Keyword::EndMain) == Some(s.len() as int),
    ensures
        spec_program(s) == Ok::<Seq<NodeView>, SyntaxError>(seq![NodeView::Main(body)]),
{
    let start = spec_skip(s, 0);
    reveal_strlit("Do it!");
    reveal_strlit("This is where the fun begins.");
    lemma_at_char(s, start, spec_phrase(Keyword::Main), 0);
    if spec_word(s, start, Keyword::Function) is Some {
        lemma_at_char(s, start, spec_phrase(Keyword::Function), 0);
    }
    assert(spec_main(s, at_body) == Ok::<NodeView, SyntaxError>(NodeView::Main(body)));
    assert(Seq::<NodeView>::empty().push(NodeView::Main(body)) =~= seq![NodeView::Main(body)]);
}

/// Where the phrase of a statement stands, neither the phrase that does
/// nothing nor the phrase of any other statement does.
proof fn law_heads_before(s: Seq<char>, pos: int, k: Keyword)
    requires
        spec_is_head(k),
        spec_word(s, pos, k) is Some,
    ensures
        k != Keyword::Print ==> spec_word(s, pos, Keyword::Print) is None,
        k != Keyword::Return ==> spec_word(s, pos, Keyword::Return) is None,
        k != Keyword::Assign ==> spec_word(s, pos, Keyword::Assign) is None,
        k != Keyword::Capture ==> spec_word(s, pos, Keyword::Capture) is None,
        k != Keyword::Call ==> spec_word(s, pos, Keyword::Call) is None,
        k != Keyword::DeclareFloat ==> spec_word(s, pos, Keyword::DeclareFloat) is None,
        k != Keyword::DeclareString ==> spec_word(s, pos, Keyword::DeclareString) is None,
        k != Keyword::DeclareBoolean ==> spec_word(s, pos, Keyword::DeclareBoolean) is None,
        k != Keyword::ReadFloat ==> spec_word(s, pos, Keyword::ReadFloat) is None,
        k != Keyword::ReadString ==> spec_word(s, pos, Keyword::ReadString) is None,
        k != Keyword::ReadBoolean ==> spec_word(s, pos, Keyword::ReadBoolean) is None,
        k != Keyword::If ==> spec_word(s, pos, Keyword::If) is None,
        k != Keyword::While ==> spec_word(s, pos, Keyword::While) is None,
        k != Keyword::For ==> spec_word(s, pos, Keyword::For) is None,
        k != Keyword::Noop ==> spec_word(s, pos, Keyword::Noop) is None,
{
    if k != Keyword::Print {
        law_one_head(s, pos, k, Keyword::Print);
    }
    if k != Keyword::Return {
        law_one_head(s, pos, k, Keyword::Return);
    }
    if k != Keyword::Assign {
        law_one_head(s, pos, k, Keyword::Assign);
    }
    if k != Keyword::Capture {
        law_one_head(s, pos, k, Keyword::Capture);
    }
    if k != Keyword::Call {
        law_one_head(s, pos, k, Keyword::Call);
    }
    if k != Keyword::DeclareFloat {
        law_one_head(s, pos, k, Keyword::DeclareFloat);
    }
    if k != Keyword::DeclareString {
        law_one_head(s, pos, k, Keyword::DeclareString);
    }
    if k != Keyword::DeclareBoolean {
        law_one_head(s, pos, k, Keyword::DeclareBoolean);
    }
    if k != Keyword::ReadFloat {
        law_one_head(s, pos, k, Keyword::ReadFloat);
    }
    if k != Keyword::ReadString {
        law_one_head(s, pos, k, Keyword::ReadString);
    }
    if k != Keyword::ReadBoolean {
        law_one_head(s, pos, k, Keyword::ReadBoolean);
    }
    if k != Keyword::If {
        law_one_head(s, pos, k, Keyword::If);
    }
    if k != Keyword::While {
        law_one_head(s, pos, k, Keyword::While);
    }
    if k != Keyword::For {
        law_one_head(s, pos, k, Keyword::For);
    }
    if k != Keyword::Noop {
        law_one_head(s, pos, k, Keyword::Noop);
    }
}

} // verus!
