//! The grammar of Logo program text, stated over character sequences.
//!
//! Each `spec_parse_*` function says what the parser of the same name does
//! with the remaining input `s`: `None` when it rejects it, or
//! `Some((n, v))` when it accepts the first `n` characters as `v`.
//! Alternatives are tried in order and the first that succeeds wins;
//! repetitions stop at the first element that fails, without consuming it.

use vstd::prelude::*;
use crate::text::is_alphanumeric;
use crate::logo_syntax::{ProgramProcedure, SpecExpr, SpecStatement};

verus! {

/// Classes of characters that the grammar scans in runs.
#[derive(PartialEq, Eq, Clone, Copy)]
pub enum CharClass {
    /// Space, tab, carriage return, line feed.
    Space,
    /// Letters, digits and `_`: the characters of names.
    Name,
    /// Letters, digits, `_` and `-`: the characters of quoted words.
    Word,
    /// Anything but a line feed.
    NotNewline,
}

pub open spec fn in_class(k: CharClass, c: char) -> bool {
    match k {
        CharClass::Space => c == ' ' || c == '\t' || c == '\r' || c == '\n',
        CharClass::Name => is_alphanumeric(c) || c == '_',
        CharClass::Word => is_alphanumeric(c) || c == '_' || c == '-',
        CharClass::NotNewline => c != '\n',
    }
}

/// The length of the longest prefix of `s` whose characters are all in class `k`.
pub open spec fn span(s: Seq<char>, k: CharClass) -> int
    decreases s.len(),
{
    if s.len() > 0 && in_class(k, s[0]) {
        1 + span(s.drop_first(), k)
    } else {
        0
    }
}

/// `span` is the one length `n` whose prefix lies in the class and is not
/// followed by a character of the class.
pub proof fn lemma_span(s: Seq<char>, k: CharClass)
    ensures
        0 <= span(s, k) <= s.len(),
        forall|i: int| 0 <= i < span(s, k) ==> in_class(k, #[trigger] s[i]),
        span(s, k) < s.len() ==> !in_class(k, s[span(s, k)]),
    decreases s.len(),
{
    if s.len() > 0 && in_class(k, s[0]) {
        lemma_span(s.drop_first(), k);
        assert forall|i: int| 0 <= i < span(s, k) implies in_class(k, #[trigger] s[i]) by {
            if i > 0 {
                assert(s[i] == s.drop_first()[i - 1]);
            }
        }
    }
}

/// A length with the properties of `lemma_span` is the span.
pub proof fn lemma_span_unique(s: Seq<char>, k: CharClass, n: int)
    requires
        0 <= n <= s.len(),
        forall|i: int| 0 <= i < n ==> in_class(k, #[trigger] s[i]),
        n < s.len() ==> !in_class(k, s[n]),
    ensures
        span(s, k) == n,
    decreases s.len(),
{
    if n > 0 {
        assert(in_class(k, s[0]));
        assert forall|i: int| 0 <= i < n - 1 implies in_class(k, #[trigger] s.drop_first()[i]) by {
            assert(s.drop_first()[i] == s[i + 1]);
        }
        if n - 1 < s.len() - 1 {
            assert(s.drop_first()[n - 1] == s[n]);
        }
        lemma_span_unique(s.drop_first(), k, n - 1);
    }
}

/// Fixed texts of the grammar: operators, keywords and punctuation.
#[derive(PartialEq, Eq, Clone, Copy)]
pub enum Keyword {
    Plus,
    Minus,
    Times,
    Divide,
    And,
    Or,
    Eq,
    Lt,
    Gt,
    Ne,
    Xcor,
    Ycor,
    Heading,
    Color,
    Make,
    AddAssign,
    PenUp,
    PenDown,
    Forward,
    Back,
    Left,
    Right,
    Turn,
    SetPenColor,
    SetHeading,
    SetX,
    SetY,
    To,
    End,
    If,
    While,
    OpenBracket,
    CloseBracket,
    CommentStart,
    Quote,
    Colon,
}

pub open spec fn keyword_text(k: Keyword) -> Seq<char> {
    match k {
        Keyword::Plus => seq!['+'],
        Keyword::Minus => seq!['-'],
        Keyword::Times => seq!['*'],
        Keyword::Divide => seq!['/'],
        Keyword::And => seq!['A', 'N', 'D'],
        Keyword::Or => seq!['O', 'R'],
        Keyword::Eq => seq!['E', 'Q'],
        Keyword::Lt => seq!['L', 'T'],
        Keyword::Gt => seq!['G', 'T'],
        Keyword::Ne => seq!['N', 'E'],
        Keyword::Xcor => seq!['X', 'C', 'O', 'R'],
        Keyword::Ycor => seq!['Y', 'C', 'O', 'R'],
        Keyword::Heading => seq!['H', 'E', 'A', 'D', 'I', 'N', 'G'],
        Keyword::Color => seq!['C', 'O', 'L', 'O', 'R'],
        Keyword::Make => seq!['M', 'A', 'K', 'E'],
        Keyword::AddAssign => seq!['A', 'D', 'D', 'A', 'S', 'S', 'I', 'G', 'N'],
        Keyword::PenUp => seq!['P', 'E', 'N', 'U', 'P'],
        Keyword::PenDown => seq!['P', 'E', 'N', 'D', 'O', 'W', 'N'],
        Keyword::Forward => seq!['F', 'O', 'R', 'W', 'A', 'R', 'D'],
        Keyword::Back => seq!['B', 'A', 'C', 'K'],
        Keyword::Left => seq!['L', 'E', 'F', 'T'],
        Keyword::Right => seq!['R', 'I', 'G', 'H', 'T'],
        Keyword::Turn => seq!['T', 'U', 'R', 'N'],
        Keyword::SetPenColor => seq!['S', 'E', 'T', 'P', 'E', 'N', 'C', 'O', 'L', 'O', 'R'],
        Keyword::SetHeading => seq!['S', 'E', 'T', 'H', 'E', 'A', 'D', 'I', 'N', 'G'],
        Keyword::SetX => seq!['S', 'E', 'T', 'X'],
        Keyword::SetY => seq!['S', 'E', 'T', 'Y'],
        Keyword::To => seq!['T', 'O'],
        Keyword::End => seq!['E', 'N', 'D'],
        Keyword::If => seq!['I', 'F'],
        Keyword::While => seq!['W', 'H', 'I', 'L', 'E'],
        Keyword::OpenBracket => seq!['['],
        Keyword::CloseBracket => seq![']'],
        Keyword::CommentStart => seq!['/', '/'],
        Keyword::Quote => seq!['"'],
        Keyword::Colon => seq![':'],
    }
}

/// `s` starts with the text of `k`; then the text's length, else `None`.
pub open spec fn spec_keyword(s: Seq<char>, k: Keyword) -> Option<int> {
    let t = keyword_text(k);
    if 0 < t.len() <= s.len() && s.subrange(0, t.len() as int) == t {
        Some(t.len() as int)
    } else {
        None
    }
}

/// Optional white space (`multispace0`): how much of it starts `s`.
pub open spec fn ws(s: Seq<char>) -> int {
    span(s, CharClass::Space)
}

/// `// comment` up to and including the end of its line; a comment
/// without a line feed after it is rejected.
#[verifier::opaque]
pub open spec fn spec_parse_comment(s: Seq<char>) -> Option<(int, ())> {
    match spec_keyword(s, Keyword::CommentStart) {
        Some(m) => {
            let k = span(s.skip(m), CharClass::NotNewline);
            if m + k < s.len() {
                Some((m + k + 1, ()))
            } else {
                None
            }
        },
        None => None,
    }
}

/// A name: one or more letters, digits or `_`.
pub open spec fn spec_parse_identifier(s: Seq<char>) -> Option<(int, Seq<char>)> {
    let k = span(s, CharClass::Name);
    if k > 0 {
        Some((k, s.take(k)))
    } else {
        None
    }
}

/// A quoted word: `"` then one or more letters, digits, `_` or `-`.
pub open spec fn spec_parse_literal(s: Seq<char>) -> Option<(int, SpecExpr)> {
    match spec_keyword(s, Keyword::Quote) {
        Some(m) => {
            let k = span(s.skip(m), CharClass::Word);
            if k > 0 {
                Some((m + k, SpecExpr::Literal(s.skip(m).take(k))))
            } else {
                None
            }
        },
        None => None,
    }
}

/// A variable: `:` then a name.
pub open spec fn spec_parse_variable(s: Seq<char>) -> Option<(int, SpecExpr)> {
    match spec_keyword(s, Keyword::Colon) {
        Some(m) => match spec_parse_identifier(s.skip(m)) {
            Some((k, name)) => Some((m + k, SpecExpr::Variable(name))),
            None => None,
        },
        None => None,
    }
}

/// `XCOR`, `YCOR`, `HEADING` or `COLOR`.
pub open spec fn spec_parse_program_procedure(s: Seq<char>) -> Option<(int, SpecExpr)> {
    if let Some(m) = spec_keyword(s, Keyword::Xcor) {
        Some((m, SpecExpr::ProgramProcedure(ProgramProcedure::XCOR)))
    } else if let Some(m) = spec_keyword(s, Keyword::Ycor) {
        Some((m, SpecExpr::ProgramProcedure(ProgramProcedure::YCOR)))
    } else if let Some(m) = spec_keyword(s, Keyword::Heading) {
        Some((m, SpecExpr::ProgramProcedure(ProgramProcedure::HEADING)))
    } else if let Some(m) = spec_keyword(s, Keyword::Color) {
        Some((m, SpecExpr::ProgramProcedure(ProgramProcedure::COLOR)))
    } else {
        None
    }
}

/// Builds the binary expression that an operator keyword stands for.
pub open spec fn binary_expr(k: Keyword, a: SpecExpr, b: SpecExpr) -> SpecExpr {
    match k {
        Keyword::Plus => SpecExpr::ADD(Box::new(a), Box::new(b)),
        Keyword::Minus => SpecExpr::SUB(Box::new(a), Box::new(b)),
        Keyword::Times => SpecExpr::MUL(Box::new(a), Box::new(b)),
        Keyword::Divide => SpecExpr::DIV(Box::new(a), Box::new(b)),
        Keyword::And => SpecExpr::AND(Box::new(a), Box::new(b)),
        Keyword::Or => SpecExpr::OR(Box::new(a), Box::new(b)),
        Keyword::Eq => SpecExpr::EQ(Box::new(a), Box::new(b)),
        Keyword::Lt => SpecExpr::LT(Box::new(a), Box::new(b)),
        Keyword::Gt => SpecExpr::GT(Box::new(a), Box::new(b)),
        _ => SpecExpr::NE(Box::new(a), Box::new(b)),
    }
}

/// Two operands, each after mandatory white space.
pub open spec fn spec_two_operands(t: Seq<char>) -> Option<(int, SpecExpr, SpecExpr)>
    decreases t.len(), 0int,
{
    let w1 = ws(t);
    if w1 == 0 {
        None
    } else {
        proof {
            lemma_span(t, CharClass::Space);
        }
        match spec_parse_expr(t.skip(w1)) {
            Some((n1, a)) => if 0 <= n1 && w1 + n1 <= t.len() {
                let u = t.skip(w1 + n1);
                let w2 = ws(u);
                if w2 == 0 {
                    None
                } else {
                    proof {
                        lemma_span(u, CharClass::Space);
                    }
                    match spec_parse_expr(u.skip(w2)) {
                        Some((n2, b)) => Some((w1 + n1 + w2 + n2, a, b)),
                        None => None,
                    }
                }
            } else {
                None
            },
            None => None,
        }
    }
}

/// Operator keyword `k` followed by two operands.
pub open spec fn spec_parse_binary(s: Seq<char>, k: Keyword) -> Option<(int, SpecExpr)>
    decreases s.len(), 1int,
{
    match spec_keyword(s, k) {
        Some(m) => match spec_two_operands(s.skip(m)) {
            Some((n, a, b)) => Some((m + n, binary_expr(k, a, b))),
            None => None,
        },
        None => None,
    }
}

/// `+ a b`, `- a b`, `* a b` or `/ a b`.
pub open spec fn spec_parse_arithmetic_expr(s: Seq<char>) -> Option<(int, SpecExpr)>
    decreases s.len(), 2int,
{
    if let Some(r) = spec_parse_binary(s, Keyword::Plus) {
        Some(r)
    } else if let Some(r) = spec_parse_binary(s, Keyword::Minus) {
        Some(r)
    } else if let Some(r) = spec_parse_binary(s, Keyword::Times) {
        Some(r)
    } else {
        spec_parse_binary(s, Keyword::Divide)
    }
}

/// `AND a b`, `OR a b`, `EQ a b`, `LT a b`, `GT a b` or `NE a b`.
pub open spec fn spec_parse_condition_expr(s: Seq<char>) -> Option<(int, SpecExpr)>
    decreases s.len(), 2int,
{
    if let Some(r) = spec_parse_binary(s, Keyword::And) {
        Some(r)
    } else if let Some(r) = spec_parse_binary(s, Keyword::Or) {
        Some(r)
    } else if let Some(r) = spec_parse_binary(s, Keyword::Eq) {
        Some(r)
    } else if let Some(r) = spec_parse_binary(s, Keyword::Lt) {
        Some(r)
    } else if let Some(r) = spec_parse_binary(s, Keyword::Gt) {
        Some(r)
    } else {
        spec_parse_binary(s, Keyword::Ne)
    }
}

/// Arguments of a call: as many expressions as follow, each after
/// mandatory white space.
pub open spec fn spec_call_arguments(t: Seq<char>) -> (int, Seq<SpecExpr>)
    decreases t.len(), 0int,
{
    let w = ws(t);
    if w == 0 {
        (0, Seq::empty())
    } else {
        proof {
            lemma_span(t, CharClass::Space);
        }
        match spec_parse_expr(t.skip(w)) {
            Some((n, e)) => if 0 <= n && w + n <= t.len() {
                let (m, es) = spec_call_arguments(t.skip(w + n));
                (w + n + m, seq![e] + es)
            } else {
                (0, Seq::empty())
            },
            None => (0, Seq::empty()),
        }
    }
}

/// A name followed by its arguments.
pub open spec fn spec_parse_procedure_call(s: Seq<char>) -> Option<(int, SpecExpr)>
    decreases s.len(), 2int,
{
    match spec_parse_identifier(s) {
        Some((k, name)) => if 0 < k <= s.len() {
            let (m, args) = spec_call_arguments(s.skip(k));
            Some((k + m, SpecExpr::ProcedureCall(name, args)))
        } else {
            None
        },
        None => None,
    }
}

/// An expression: arithmetic, condition, quoted word, variable, turtle
/// query or call, tried in that order.
pub open spec fn spec_parse_expr(s: Seq<char>) -> Option<(int, SpecExpr)>
    decreases s.len(), 3int,
{
    if let Some(r) = spec_parse_arithmetic_expr(s) {
        Some(r)
    } else if let Some(r) = spec_parse_condition_expr(s) {
        Some(r)
    } else if let Some(r) = spec_parse_literal(s) {
        Some(r)
    } else if let Some(r) = spec_parse_variable(s) {
        Some(r)
    } else if let Some(r) = spec_parse_program_procedure(s) {
        Some(r)
    } else {
        spec_parse_procedure_call(s)
    }
}

/// `MAKE` followed by two operands: the name and the value.
#[verifier::opaque]
pub open spec fn spec_parse_make(s: Seq<char>) -> Option<(int, SpecStatement)> {
    match spec_keyword(s, Keyword::Make) {
        Some(m) => match spec_two_operands(s.skip(m)) {
            Some((n, a, b)) => Some((m + n, SpecStatement::MakeVariable(a, b))),
            None => None,
        },
        None => None,
    }
}

/// `ADDASSIGN` followed by two operands: the name and the amount.
#[verifier::opaque]
pub open spec fn spec_parse_addassign(s: Seq<char>) -> Option<(int, SpecStatement)> {
    match spec_keyword(s, Keyword::AddAssign) {
        Some(m) => match spec_two_operands(s.skip(m)) {
            Some((n, a, b)) => Some((m + n, SpecStatement::AddAssign(a, b))),
            None => None,
        },
        None => None,
    }
}

/// `PENUP`.
#[verifier::opaque]
pub open spec fn spec_parse_penup(s: Seq<char>) -> Option<(int, SpecStatement)> {
    match spec_keyword(s, Keyword::PenUp) {
        Some(m) => Some((m, SpecStatement::PenUp)),
        None => None,
    }
}

/// `PENDOWN`.
#[verifier::opaque]
pub open spec fn spec_parse_pendown(s: Seq<char>) -> Option<(int, SpecStatement)> {
    match spec_keyword(s, Keyword::PenDown) {
        Some(m) => Some((m, SpecStatement::PenDown)),
        None => None,
    }
}

/// One operand after mandatory white space.
pub open spec fn spec_one_operand(t: Seq<char>) -> Option<(int, SpecExpr)> {
    let w = ws(t);
    if w == 0 {
        None
    } else {
        match spec_parse_expr(t.skip(w)) {
            Some((n, e)) => Some((w + n, e)),
            None => None,
        }
    }
}

/// The statement that a command keyword with one operand stands for.
pub open spec fn unary_statement(k: Keyword, e: SpecExpr) -> SpecStatement {
    match k {
        Keyword::Forward => SpecStatement::Forward(e),
        Keyword::Back => SpecStatement::Back(e),
        Keyword::Left => SpecStatement::Left(e),
        Keyword::Right => SpecStatement::Right(e),
        Keyword::Turn => SpecStatement::Turn(e),
        Keyword::SetPenColor => SpecStatement::SetPenColor(e),
        Keyword::SetHeading => SpecStatement::SetHeading(e),
        Keyword::SetX => SpecStatement::SetX(e),
        _ => SpecStatement::SetY(e),
    }
}

/// Command keyword `k` followed by one operand.
#[verifier::opaque]
pub open spec fn spec_parse_command(s: Seq<char>, k: Keyword) -> Option<(int, SpecStatement)> {
    match spec_keyword(s, k) {
        Some(m) => match spec_one_operand(s.skip(m)) {
            Some((n, e)) => Some((m + n, unary_statement(k, e))),
            None => None,
        },
        None => None,
    }
}

/// After `IF` or `WHILE`: a condition, then `[`, statements and `]`.
pub open spec fn spec_guarded_block(t: Seq<char>) -> Option<(int, SpecExpr, Seq<SpecStatement>)>
    decreases t.len(), 0int,
{
    let w1 = ws(t);
    if w1 == 0 {
        None
    } else {
        proof {
            lemma_span(t, CharClass::Space);
        }
        match spec_parse_expr(t.skip(w1)) {
            Some((n1, c)) => if 0 <= n1 && w1 + n1 <= t.len() {
                let u = t.skip(w1 + n1);
                let w2 = ws(u);
                if w2 == 0 {
                    None
                } else {
                    proof {
                        lemma_span(u, CharClass::Space);
                    }
                    let v = u.skip(w2);
                    match spec_keyword(v, Keyword::OpenBracket) {
                        Some(b1) => {
                            let x = v.skip(b1);
                            let w3 = ws(x);
                            proof {
                                lemma_span(x, CharClass::Space);
                            }
                            let y = x.skip(w3);
                            match spec_statements(y) {
                                Some((p, body)) => if 0 <= p <= y.len() {
                                    match spec_keyword(y.skip(p), Keyword::CloseBracket) {
                                        Some(b2) => Some(
                                            (w1 + n1 + w2 + b1 + w3 + p + b2, c, body),
                                        ),
                                        None => None,
                                    }
                                } else {
                                    None
                                },
                                None => None,
                            }
                        },
                        None => None,
                    }
                }
            } else {
                None
            },
            None => None,
        }
    }
}

/// `IF condition [ statements ]`.
#[verifier::opaque]
pub open spec fn spec_parse_if(s: Seq<char>) -> Option<(int, SpecStatement)>
    decreases s.len(), 1int,
{
    match spec_keyword(s, Keyword::If) {
        Some(m) => match spec_guarded_block(s.skip(m)) {
            Some((n, c, body)) => Some((m + n, SpecStatement::IF(c, body))),
            None => None,
        },
        None => None,
    }
}

/// `WHILE condition [ statements ]`.
#[verifier::opaque]
pub open spec fn spec_parse_while(s: Seq<char>) -> Option<(int, SpecStatement)>
    decreases s.len(), 1int,
{
    match spec_keyword(s, Keyword::While) {
        Some(m) => match spec_guarded_block(s.skip(m)) {
            Some((n, c, body)) => Some((m + n, SpecStatement::WHILE(c, body))),
            None => None,
        },
        None => None,
    }
}

/// Parameters of a procedure: as many `:name` as follow, each after
/// mandatory white space.
pub open spec fn spec_parameters(t: Seq<char>) -> (int, Seq<Seq<char>>)
    decreases t.len(),
{
    let w = ws(t);
    if w == 0 {
        (0, Seq::empty())
    } else {
        proof {
            lemma_span(t, CharClass::Space);
        }
        match spec_parse_variable(t.skip(w)) {
            Some((n, SpecExpr::Variable(name))) => if 0 <= n && w + n <= t.len() {
                let (m, names) = spec_parameters(t.skip(w + n));
                (w + n + m, seq![name] + names)
            } else {
                (0, Seq::empty())
            },
            _ => (0, Seq::empty()),
        }
    }
}

/// `TO name :param ... statements END`, with at least one statement.
#[verifier::opaque]
pub open spec fn spec_parse_procedure_definition(s: Seq<char>) -> Option<(int, SpecStatement)>
    decreases s.len(), 1int,
{
    match spec_keyword(s, Keyword::To) {
        Some(m) => {
            let t = s.skip(m);
            let w1 = ws(t);
            if w1 == 0 {
                None
            } else {
                proof {
                    lemma_span(t, CharClass::Space);
                }
                let u = t.skip(w1);
                match spec_parse_identifier(u) {
                    Some((k, name)) => if 0 <= k <= u.len() {
                        let (p, params) = spec_parameters(u.skip(k));
                        if 0 <= p <= u.len() - k {
                            let v = u.skip(k + p);
                            let w2 = ws(v);
                            proof {
                                lemma_span(v, CharClass::Space);
                            }
                            let x = v.skip(w2);
                            match spec_statements(x) {
                                Some((q, body)) => if body.len() > 0 && 0 <= q <= x.len() {
                                    match spec_keyword(x.skip(q), Keyword::End) {
                                        Some(e) => Some(
                                            (
                                                m + w1 + k + p + w2 + q + e,
                                                SpecStatement::ProceduresDefinition(
                                                    name,
                                                    params,
                                                    body,
                                                ),
                                            ),
                                        ),
                                        None => None,
                                    }
                                } else {
                                    None
                                },
                                None => None,
                            }
                        } else {
                            None
                        }
                    } else {
                        None
                    },
                    None => None,
                }
            }
        },
        None => None,
    }
}

/// A statement: the alternatives in the order the parser tries them,
/// a comment last.
pub open spec fn spec_parse_statement(s: Seq<char>) -> Option<(int, SpecStatement)>
    decreases s.len(), 2int,
{
    if let Some(r) = spec_parse_make(s) {
        Some(r)
    } else if let Some(r) = spec_parse_addassign(s) {
        Some(r)
    } else if let Some(r) = spec_parse_penup(s) {
        Some(r)
    } else if let Some(r) = spec_parse_pendown(s) {
        Some(r)
    } else if let Some(r) = spec_parse_command(s, Keyword::Forward) {
        Some(r)
    } else if let Some(r) = spec_parse_command(s, Keyword::Back) {
        Some(r)
    } else if let Some(r) = spec_parse_command(s, Keyword::Left) {
        Some(r)
    } else if let Some(r) = spec_parse_command(s, Keyword::Right) {
        Some(r)
    } else if let Some(r) = spec_parse_command(s, Keyword::Turn) {
        Some(r)
    } else if let Some(r) = spec_parse_command(s, Keyword::SetPenColor) {
        Some(r)
    } else if let Some(r) = spec_parse_command(s, Keyword::SetHeading) {
        Some(r)
    } else if let Some(r) = spec_parse_command(s, Keyword::SetX) {
        Some(r)
    } else if let Some(r) = spec_parse_command(s, Keyword::SetY) {
        Some(r)
    } else if let Some(r) = spec_parse_procedure_definition(s) {
        Some(r)
    } else if let Some(r) = spec_parse_if(s) {
        Some(r)
    } else if let Some(r) = spec_parse_while(s) {
        Some(r)
    } else {
        match spec_parse_comment(s) {
            Some((n, _)) => Some((n, SpecStatement::Comment)),
            None => None,
        }
    }
}

/// Statements, each with optional white space around it, as many as
/// follow; `None` if one were accepted without consuming anything.
pub open spec fn spec_statements(s: Seq<char>) -> Option<(int, Seq<SpecStatement>)>
    decreases s.len(), 3int,
{
    let w0 = ws(s);
    proof {
        lemma_span(s, CharClass::Space);
    }
    match spec_parse_statement(s.skip(w0)) {
        Some((n, st)) => if 0 <= n && w0 + n <= s.len() {
            let u = s.skip(w0 + n);
            let w1 = ws(u);
            proof {
                lemma_span(u, CharClass::Space);
            }
            let used = w0 + n + w1;
            if used == 0 {
                None
            } else {
                match spec_statements(s.skip(used)) {
                    Some((m, rest)) => Some((used + m, seq![st] + rest)),
                    None => None,
                }
            }
        } else {
            Some((0, Seq::empty()))
        },
        None => Some((0, Seq::empty())),
    }
}

/// One item of a program: a statement, or a comment that is dropped.
pub open spec fn spec_program_item(t: Seq<char>) -> Option<(int, Option<SpecStatement>)> {
    match spec_parse_statement(t) {
        Some((n, st)) => Some((n, Some(st))),
        None => match spec_parse_comment(t) {
            Some((n, _)) => Some((n, None)),
            None => None,
        },
    }
}

/// A program: items with optional white space around each, as many as
/// follow; the text after the last item is left unparsed.
pub open spec fn spec_parse_program(s: Seq<char>) -> Option<(int, Seq<SpecStatement>)>
    decreases s.len(),
{
    let w0 = ws(s);
    proof {
        lemma_span(s, CharClass::Space);
    }
    match spec_program_item(s.skip(w0)) {
        Some((n, item)) => if 0 <= n && w0 + n <= s.len() {
            let u = s.skip(w0 + n);
            let w1 = ws(u);
            proof {
                lemma_span(u, CharClass::Space);
            }
            let used = w0 + n + w1;
            if used == 0 {
                None
            } else {
                match spec_parse_program(s.skip(used)) {
                    Some((m, rest)) => Some(
                        (
                            used + m,
                            match item {
                                Some(st) => seq![st] + rest,
                                None => rest,
                            },
                        ),
                    ),
                    None => None,
                }
            }
        } else {
            Some((0, Seq::empty()))
        },
        None => Some((0, Seq::empty())),
    }
}

} // verus!
