//! The parser of Logo program text.
//!
//! Every parser takes the remaining input as characters and returns `None`
//! when it rejects it, or `Some((n, value))` when it accepts its first `n`
//! characters; its contract equates that with the grammar of
//! [`crate::logo_grammar`].

use vstd::prelude::*;
use vstd::slice::slice_subrange;
use crate::text::string_from_chars;
use crate::logo_syntax::{
    Expr, Statement, Program, ProgramProcedure, SpecExpr, SpecStatement, expr_view, exprs_view,
    statement_view, statements_view, strings_view, lemma_exprs_view, lemma_statements_view,
};
use crate::logo_grammar::{
    CharClass, Keyword, in_class, span, lemma_span, lemma_span_unique, keyword_text, spec_keyword,
    ws, binary_expr, unary_statement, spec_parse_comment, spec_parse_identifier,
    spec_parse_literal, spec_parse_variable, spec_parse_program_procedure, spec_two_operands,
    spec_parse_binary, spec_parse_arithmetic_expr, spec_parse_condition_expr,
    spec_call_arguments, spec_parse_procedure_call, spec_parse_expr, spec_parse_make,
    spec_parse_addassign, spec_parse_penup, spec_parse_pendown, spec_one_operand,
    spec_parse_command, spec_guarded_block, spec_parse_if, spec_parse_while, spec_parameters,
    spec_parse_procedure_definition, spec_parse_statement, spec_statements, spec_program_item,
    spec_parse_program,
};

verus! {

/// What a parser returns: the number of characters consumed and the value.
pub type ParseResult<T> = Option<(usize, T)>;

/// The parser's result `r` on an input of length `len` is what the grammar
/// gives (`g`), and consumes no more than the input.
pub open spec fn parsed_as<T: View>(r: ParseResult<T>, g: Option<(int, T::V)>, len: nat) -> bool {
    match r {
        Some((n, v)) => g == Some((n as int, v@)) && n <= len,
        None => g is None,
    }
}

fn class_contains(k: CharClass, c: char) -> (b: bool)
    ensures
        b == in_class(k, c),
{
    let u = c as u32;
    let alnum = ('a' as u32 <= u && u <= 'z' as u32) || ('A' as u32 <= u && u <= 'Z' as u32) || (
    '0' as u32 <= u && u <= '9' as u32);
    match k {
        CharClass::Space => c == ' ' || c == '\t' || c == '\r' || c == '\n',
        CharClass::Name => alnum || c == '_',
        CharClass::Word => alnum || c == '_' || c == '-',
        CharClass::NotNewline => c != '\n',
    }
}

/// The length of the run of class `k` that starts `s`.
fn span_exec(s: &[char], k: CharClass) -> (n: usize)
    ensures
        n == span(s@, k),
        s@.len() <= usize::MAX,
{
    let mut i: usize = 0;
    while i < s.len() && class_contains(k, s[i])
        invariant
            0 <= i <= s.len(),
            forall|j: int| 0 <= j < i ==> in_class(k, #[trigger] s@[j]),
        decreases s.len() - i,
    {
        i = i + 1;
    }
    proof {
        lemma_span_unique(s@, k, i as int);
    }
    i
}

fn skip(s: &[char], n: usize) -> (r: &[char])
    requires
        n <= s@.len(),
    ensures
        r@ == s@.skip(n as int),
        s@.len() <= usize::MAX,
{
    assert(s@.len() == s.len());
    let r = slice_subrange(s, n, s.len());
    assert(r@ =~= s@.skip(n as int));
    r
}

fn keyword_chars(k: Keyword) -> (r: &'static [char])
    ensures
        r@ == keyword_text(k),
{
    match k {
        Keyword::Plus => &['+'],
        Keyword::Minus => &['-'],
        Keyword::Times => &['*'],
        Keyword::Divide => &['/'],
        Keyword::And => &['A', 'N', 'D'],
        Keyword::Or => &['O', 'R'],
        Keyword::Eq => &['E', 'Q'],
        Keyword::Lt => &['L', 'T'],
        Keyword::Gt => &['G', 'T'],
        Keyword::Ne => &['N', 'E'],
        Keyword::Xcor => &['X', 'C', 'O', 'R'],
        Keyword::Ycor => &['Y', 'C', 'O', 'R'],
        Keyword::Heading => &['H', 'E', 'A', 'D', 'I', 'N', 'G'],
        Keyword::Color => &['C', 'O', 'L', 'O', 'R'],
        Keyword::Make => &['M', 'A', 'K', 'E'],
        Keyword::AddAssign => &['A', 'D', 'D', 'A', 'S', 'S', 'I', 'G', 'N'],
        Keyword::PenUp => &['P', 'E', 'N', 'U', 'P'],
        Keyword::PenDown => &['P', 'E', 'N', 'D', 'O', 'W', 'N'],
        Keyword::Forward => &['F', 'O', 'R', 'W', 'A', 'R', 'D'],
        Keyword::Back => &['B', 'A', 'C', 'K'],
        Keyword::Left => &['L', 'E', 'F', 'T'],
        Keyword::Right => &['R', 'I', 'G', 'H', 'T'],
        Keyword::Turn => &['T', 'U', 'R', 'N'],
        Keyword::SetPenColor => &['S', 'E', 'T', 'P', 'E', 'N', 'C', 'O', 'L', 'O', 'R'],
        Keyword::SetHeading => &['S', 'E', 'T', 'H', 'E', 'A', 'D', 'I', 'N', 'G'],
        Keyword::SetX => &['S', 'E', 'T', 'X'],
        Keyword::SetY => &['S', 'E', 'T', 'Y'],
        Keyword::To => &['T', 'O'],
        Keyword::End => &['E', 'N', 'D'],
        Keyword::If => &['I', 'F'],
        Keyword::While => &['W', 'H', 'I', 'L', 'E'],
        Keyword::OpenBracket => &['['],
        Keyword::CloseBracket => &[']'],
        Keyword::CommentStart => &['/', '/'],
        Keyword::Quote => &['"'],
        Keyword::Colon => &[':'],
    }
}

/// Matches keyword `k` at the start of `s`.
fn keyword_exec(s: &[char], k: Keyword) -> (r: Option<usize>)
    ensures
        match r {
            Some(m) => spec_keyword(s@, k) == Some(m as int) && 0 < m <= s@.len(),
            None => spec_keyword(s@, k) is None,
        },
        s@.len() <= usize::MAX,
{
    let t = keyword_chars(k);
    assert(s@.len() == s.len() && t@.len() == t.len());
    if t.len() == 0 || t.len() > s.len() {
        return None;
    }
    let mut i: usize = 0;
    while i < t.len()
        invariant
            0 <= i <= t.len() <= s.len(),
            t@ == keyword_text(k),
            t@.len() > 0,
            forall|j: int| 0 <= j < i ==> s@[j] == t@[j],
        decreases t.len() - i,
    {
        if s[i] != t[i] {
            assert(s@.subrange(0, t@.len() as int)[i as int] != t@[i as int]);
            return None;
        }
        i = i + 1;
    }
    assert(s@.subrange(0, t@.len() as int) =~= t@);
    Some(t.len())
}

/// Optional white space at the start of `s`.
fn ws_exec(s: &[char]) -> (n: usize)
    ensures
        n == ws(s@),
        n <= s@.len(),
        s@.len() <= usize::MAX,
{
    let n = span_exec(s, CharClass::Space);
    proof {
        lemma_span(s@, CharClass::Space);
    }
    n
}

/// Parses a comment: `//` up to and including the next line feed.
pub fn parse_comment(input: &[char]) -> (r: ParseResult<()>)
    ensures
        parsed_as(r, spec_parse_comment(input@), input@.len()),
        r matches Some((n, _)) ==> n > 0,
{
    reveal(spec_parse_comment);
    match keyword_exec(input, Keyword::CommentStart) {
        Some(m) => {
            let rest = skip(input, m);
            let k = span_exec(rest, CharClass::NotNewline);
            proof {
                lemma_span(rest@, CharClass::NotNewline);
            }
            if m + k < input.len() {
                Some((m + k + 1, ()))
            } else {
                None
            }
        },
        None => None,
    }
}

/// Parses a name: one or more letters, digits or `_`.
pub fn parse_identifier(input: &[char]) -> (r: ParseResult<String>)
    ensures
        parsed_as(r, spec_parse_identifier(input@), input@.len()),
        r matches Some((n, _)) ==> n > 0,
{
    let k = span_exec(input, CharClass::Name);
    proof {
        lemma_span(input@, CharClass::Name);
    }
    if k > 0 {
        let name = string_from_chars(slice_subrange(input, 0, k));
        assert(name@ =~= input@.take(k as int));
        Some((k, name))
    } else {
        None
    }
}

/// Parses a quoted word: `"` then one or more letters, digits, `_` or `-`.
pub fn parse_literal(input: &[char]) -> (r: ParseResult<Expr>)
    ensures
        parsed_as(r, spec_parse_literal(input@), input@.len()),
        r matches Some((n, _)) ==> n > 0,
{
    match keyword_exec(input, Keyword::Quote) {
        Some(m) => {
            let rest = skip(input, m);
            let k = span_exec(rest, CharClass::Word);
            proof {
                lemma_span(rest@, CharClass::Word);
            }
            if k > 0 {
                let word = string_from_chars(slice_subrange(rest, 0, k));
                assert(word@ =~= rest@.take(k as int));
                Some((m + k, Expr::Literal(word)))
            } else {
                None
            }
        },
        None => None,
    }
}

/// Parses a variable: `:` then a name.
pub fn parse_variable(input: &[char]) -> (r: ParseResult<Expr>)
    ensures
        parsed_as(r, spec_parse_variable(input@), input@.len()),
        r matches Some((n, _)) ==> n > 0,
{
    match keyword_exec(input, Keyword::Colon) {
        Some(m) => match parse_identifier(skip(input, m)) {
            Some((k, name)) => Some((m + k, Expr::Variable(name))),
            None => None,
        },
        None => None,
    }
}

/// Parses `XCOR`, `YCOR`, `HEADING` or `COLOR`.
pub fn parse_program_procedure(input: &[char]) -> (r: ParseResult<Expr>)
    ensures
        parsed_as(r, spec_parse_program_procedure(input@), input@.len()),
        r matches Some((n, _)) ==> n > 0,
{
    if let Some(m) = keyword_exec(input, Keyword::Xcor) {
        Some((m, Expr::ProgramProcedure(ProgramProcedure::XCOR)))
    } else if let Some(m) = keyword_exec(input, Keyword::Ycor) {
        Some((m, Expr::ProgramProcedure(ProgramProcedure::YCOR)))
    } else if let Some(m) = keyword_exec(input, Keyword::Heading) {
        Some((m, Expr::ProgramProcedure(ProgramProcedure::HEADING)))
    } else if let Some(m) = keyword_exec(input, Keyword::Color) {
        Some((m, Expr::ProgramProcedure(ProgramProcedure::COLOR)))
    } else {
        None
    }
}

fn make_binary(k: Keyword, a: Expr, b: Expr) -> (r: Expr)
    ensures
        r@ == binary_expr(k, a@, b@),
{
    match k {
        Keyword::Plus => Expr::ADD(Box::new(a), Box::new(b)),
        Keyword::Minus => Expr::SUB(Box::new(a), Box::new(b)),
        Keyword::Times => Expr::MUL(Box::new(a), Box::new(b)),
        Keyword::Divide => Expr::DIV(Box::new(a), Box::new(b)),
        Keyword::And => Expr::AND(Box::new(a), Box::new(b)),
        Keyword::Or => Expr::OR(Box::new(a), Box::new(b)),
        Keyword::Eq => Expr::EQ(Box::new(a), Box::new(b)),
        Keyword::Lt => Expr::LT(Box::new(a), Box::new(b)),
        Keyword::Gt => Expr::GT(Box::new(a), Box::new(b)),
        _ => Expr::NE(Box::new(a), Box::new(b)),
    }
}

fn two_operands(t: &[char]) -> (r: Option<(usize, Expr, Expr)>)
    ensures
        match r {
            Some((n, a, b)) => spec_two_operands(t@) == Some((n as int, a@, b@)) && n <= t@.len(),
            None => spec_two_operands(t@) is None,
        },
    decreases t@.len(), 0int,
{
    let w1 = ws_exec(t);
    if w1 == 0 {
        return None;
    }
    let t1 = skip(t, w1);
    match parse_expr(t1) {
        Some((n1, a)) => {
            assert(n1 <= t1@.len());
            let u = skip(t, w1 + n1);
            let w2 = ws_exec(u);
            if w2 == 0 {
                return None;
            }
            assert(u@.skip(w2 as int) =~= t@.skip(w1 + n1 + w2));
            match parse_expr(skip(u, w2)) {
                Some((n2, b)) => Some((w1 + n1 + w2 + n2, a, b)),
                None => None,
            }
        },
        None => None,
    }
}

fn parse_binary(input: &[char], k: Keyword) -> (r: ParseResult<Expr>)
    ensures
        parsed_as(r, spec_parse_binary(input@, k), input@.len()),
        r matches Some((n, _)) ==> n > 0,
    decreases input@.len(), 1int,
{
    match keyword_exec(input, k) {
        Some(m) => {
            let t = skip(input, m);
            match two_operands(t) {
                Some((n, a, b)) => {
                    assert(n <= t@.len());
                    Some((m + n, make_binary(k, a, b)))
                },
                None => None,
            }
        },
        None => None,
    }
}

/// Parses `+ a b`, `- a b`, `* a b` or `/ a b`.
pub fn parse_arithmetic_expr(input: &[char]) -> (r: ParseResult<Expr>)
    ensures
        parsed_as(r, spec_parse_arithmetic_expr(input@), input@.len()),
        r matches Some((n, _)) ==> n > 0,
    decreases input@.len(), 2int,
{
    if let Some(r) = parse_binary(input, Keyword::Plus) {
        Some(r)
    } else if let Some(r) = parse_binary(input, Keyword::Minus) {
        Some(r)
    } else if let Some(r) = parse_binary(input, Keyword::Times) {
        Some(r)
    } else {
        parse_binary(input, Keyword::Divide)
    }
}

/// Parses `AND a b`, `OR a b`, `EQ a b`, `LT a b`, `GT a b` or `NE a b`.
pub fn parse_condition_expr(input: &[char]) -> (r: ParseResult<Expr>)
    ensures
        parsed_as(r, spec_parse_condition_expr(input@), input@.len()),
        r matches Some((n, _)) ==> n > 0,
    decreases input@.len(), 2int,
{
    if let Some(r) = parse_binary(input, Keyword::And) {
        Some(r)
    } else if let Some(r) = parse_binary(input, Keyword::Or) {
        Some(r)
    } else if let Some(r) = parse_binary(input, Keyword::Eq) {
        Some(r)
    } else if let Some(r) = parse_binary(input, Keyword::Lt) {
        Some(r)
    } else if let Some(r) = parse_binary(input, Keyword::Gt) {
        Some(r)
    } else {
        parse_binary(input, Keyword::Ne)
    }
}

fn call_arguments(t: &[char]) -> (r: (usize, Vec<Expr>))
    ensures
        spec_call_arguments(t@) == (r.0 as int, exprs_view(r.1@)),
        r.0 <= t@.len(),
    decreases t@.len(), 0int,
{
    let w = ws_exec(t);
    if w == 0 {
        let v: Vec<Expr> = Vec::new();
        assert(exprs_view(v@) =~= Seq::<SpecExpr>::empty());
        return (0, v);
    }
    let t1 = skip(t, w);
    match parse_expr(t1) {
        Some((n, e)) => {
            assert(n <= t1@.len());
            let t2 = skip(t, w + n);
            let (m, mut rest) = call_arguments(t2);
            assert(m <= t2@.len());
            let ghost old_rest = rest@;
            rest.insert(0, e);
            proof {
                lemma_exprs_view(rest@);
                lemma_exprs_view(old_rest);
                assert(exprs_view(rest@) =~= seq![e@] + exprs_view(old_rest)) by {
                    assert forall|i: int| 0 <= i < rest@.len() implies #[trigger] exprs_view(
                        rest@,
                    )[i] == (seq![e@] + exprs_view(old_rest))[i] by {
                        if i > 0 {
                            assert(rest@[i] == old_rest[i - 1]);
                        }
                    }
                }
            }
            (w + n + m, rest)
        },
        None => {
            let v: Vec<Expr> = Vec::new();
            assert(exprs_view(v@) =~= Seq::<SpecExpr>::empty());
            (0, v)
        },
    }
}

/// Parses a call: a name followed by its arguments.
pub fn parse_procedure_call(input: &[char]) -> (r: ParseResult<Expr>)
    ensures
        parsed_as(r, spec_parse_procedure_call(input@), input@.len()),
        r matches Some((n, _)) ==> n > 0,
    decreases input@.len(), 2int,
{
    match parse_identifier(input) {
        Some((k, name)) => {
            let t = skip(input, k);
            let (m, args) = call_arguments(t);
            assert(m <= t@.len());
            Some((k + m, Expr::ProcedureCall(name, args)))
        },
        None => None,
    }
}

/// Parses an expression: arithmetic, condition, quoted word, variable,
/// turtle query or call, tried in that order.
pub fn parse_expr(input: &[char]) -> (r: ParseResult<Expr>)
    ensures
        parsed_as(r, spec_parse_expr(input@), input@.len()),
        r matches Some((n, _)) ==> n > 0,
    decreases input@.len(), 3int,
{
    if let Some(r) = parse_arithmetic_expr(input) {
        Some(r)
    } else if let Some(r) = parse_condition_expr(input) {
        Some(r)
    } else if let Some(r) = parse_literal(input) {
        Some(r)
    } else if let Some(r) = parse_variable(input) {
        Some(r)
    } else if let Some(r) = parse_program_procedure(input) {
        Some(r)
    } else {
        parse_procedure_call(input)
    }
}

/// `k` items, then what a repetition `r` gives of the rest.
pub open spec fn after_prefix(
    k: int,
    items: Seq<SpecStatement>,
    r: Option<(int, Seq<SpecStatement>)>,
) -> Option<(int, Seq<SpecStatement>)> {
    match r {
        Some((m, rest)) => Some((k + m, items + rest)),
        None => None,
    }
}

/// Parses `MAKE name value`.
pub fn parse_make(input: &[char]) -> (r: ParseResult<Statement>)
    ensures
        parsed_as(r, spec_parse_make(input@), input@.len()),
        r matches Some((n, _)) ==> n > 0,
{
    reveal(spec_parse_make);
    match keyword_exec(input, Keyword::Make) {
        Some(m) => {
            let t = skip(input, m);
            match two_operands(t) {
                Some((n, a, b)) => Some((m + n, Statement::MakeVariable(a, b))),
                None => None,
            }
        },
        None => None,
    }
}

/// Parses `ADDASSIGN name amount`.
pub fn parse_addassign(input: &[char]) -> (r: ParseResult<Statement>)
    ensures
        parsed_as(r, spec_parse_addassign(input@), input@.len()),
        r matches Some((n, _)) ==> n > 0,
{
    reveal(spec_parse_addassign);
    match keyword_exec(input, Keyword::AddAssign) {
        Some(m) => {
            let t = skip(input, m);
            match two_operands(t) {
                Some((n, a, b)) => Some((m + n, Statement::AddAssign(a, b))),
                None => None,
            }
        },
        None => None,
    }
}

/// Parses `PENUP`.
pub fn parse_penup(input: &[char]) -> (r: ParseResult<Statement>)
    ensures
        parsed_as(r, spec_parse_penup(input@), input@.len()),
        r matches Some((n, _)) ==> n > 0,
{
    reveal(spec_parse_penup);
    match keyword_exec(input, Keyword::PenUp) {
        Some(m) => Some((m, Statement::PenUp)),
        None => None,
    }
}

/// Parses `PENDOWN`.
pub fn parse_pendown(input: &[char]) -> (r: ParseResult<Statement>)
    ensures
        parsed_as(r, spec_parse_pendown(input@), input@.len()),
        r matches Some((n, _)) ==> n > 0,
{
    reveal(spec_parse_pendown);
    match keyword_exec(input, Keyword::PenDown) {
        Some(m) => Some((m, Statement::PenDown)),
        None => None,
    }
}

fn make_command(k: Keyword, e: Expr) -> (r: Statement)
    ensures
        r@ == unary_statement(k, e@),
{
    match k {
        Keyword::Forward => Statement::Forward(e),
        Keyword::Back => Statement::Back(e),
        Keyword::Left => Statement::Left(e),
        Keyword::Right => Statement::Right(e),
        Keyword::Turn => Statement::Turn(e),
        Keyword::SetPenColor => Statement::SetPenColor(e),
        Keyword::SetHeading => Statement::SetHeading(e),
        Keyword::SetX => Statement::SetX(e),
        _ => Statement::SetY(e),
    }
}

fn parse_command(input: &[char], k: Keyword) -> (r: ParseResult<Statement>)
    ensures
        parsed_as(r, spec_parse_command(input@, k), input@.len()),
        r matches Some((n, _)) ==> n > 0,
{
    reveal(spec_parse_command);
    match keyword_exec(input, k) {
        Some(m) => {
            let t = skip(input, m);
            let w = ws_exec(t);
            if w == 0 {
                return None;
            }
            let u = skip(t, w);
            match parse_expr(u) {
                Some((n, e)) => Some((m + w + n, make_command(k, e))),
                None => None,
            }
        },
        None => None,
    }
}

/// Parses `FORWARD distance`.
pub fn parse_forward(input: &[char]) -> (r: ParseResult<Statement>)
    ensures
        parsed_as(r, spec_parse_command(input@, Keyword::Forward), input@.len()),
{
    parse_command(input, Keyword::Forward)
}

/// Parses `BACK distance`.
pub fn parse_back(input: &[char]) -> (r: ParseResult<Statement>)
    ensures
        parsed_as(r, spec_parse_command(input@, Keyword::Back), input@.len()),
{
    parse_command(input, Keyword::Back)
}

/// Parses `LEFT distance`.
pub fn parse_left(input: &[char]) -> (r: ParseResult<Statement>)
    ensures
        parsed_as(r, spec_parse_command(input@, Keyword::Left), input@.len()),
{
    parse_command(input, Keyword::Left)
}

/// Parses `RIGHT distance`.
pub fn parse_right(input: &[char]) -> (r: ParseResult<Statement>)
    ensures
        parsed_as(r, spec_parse_command(input@, Keyword::Right), input@.len()),
{
    parse_command(input, Keyword::Right)
}

/// Parses `TURN angle`.
pub fn parse_turn(input: &[char]) -> (r: ParseResult<Statement>)
    ensures
        parsed_as(r, spec_parse_command(input@, Keyword::Turn), input@.len()),
{
    parse_command(input, Keyword::Turn)
}

/// Parses `SETPENCOLOR color`.
pub fn parse_setpencolor(input: &[char]) -> (r: ParseResult<Statement>)
    ensures
        parsed_as(r, spec_parse_command(input@, Keyword::SetPenColor), input@.len()),
{
    parse_command(input, Keyword::SetPenColor)
}

/// Parses `SETHEADING angle`.
pub fn parse_setheading(input: &[char]) -> (r: ParseResult<Statement>)
    ensures
        parsed_as(r, spec_parse_command(input@, Keyword::SetHeading), input@.len()),
{
    parse_command(input, Keyword::SetHeading)
}

/// Parses `SETX position`.
pub fn parse_setx(input: &[char]) -> (r: ParseResult<Statement>)
    ensures
        parsed_as(r, spec_parse_command(input@, Keyword::SetX), input@.len()),
{
    parse_command(input, Keyword::SetX)
}

/// Parses `SETY position`.
pub fn parse_sety(input: &[char]) -> (r: ParseResult<Statement>)
    ensures
        parsed_as(r, spec_parse_command(input@, Keyword::SetY), input@.len()),
{
    parse_command(input, Keyword::SetY)
}

fn guarded_block(t: &[char]) -> (r: Option<(usize, Expr, Vec<Statement>)>)
    ensures
        match r {
            Some((n, c, body)) => spec_guarded_block(t@) == Some(
                (n as int, c@, statements_view(body@)),
            ) && n <= t@.len(),
            None => spec_guarded_block(t@) is None,
        },
    decreases t@.len(), 0int,
{
    let w1 = ws_exec(t);
    if w1 == 0 {
        return None;
    }
    let t1 = skip(t, w1);
    let (n1, c) = match parse_expr(t1) {
        Some(p) => p,
        None => {
            return None;
        },
    };
    let u = skip(t1, n1);
    assert(u@ =~= t@.skip(w1 + n1));
    let w2 = ws_exec(u);
    if w2 == 0 {
        return None;
    }
    let v = skip(u, w2);
    let b1 = match keyword_exec(v, Keyword::OpenBracket) {
        Some(b) => b,
        None => {
            return None;
        },
    };
    let x = skip(v, b1);
    let w3 = ws_exec(x);
    let y = skip(x, w3);
    let (p, body) = match statements(y) {
        Some(q) => q,
        None => {
            return None;
        },
    };
    let z = skip(y, p);
    match keyword_exec(z, Keyword::CloseBracket) {
        Some(b2) => Some((w1 + n1 + w2 + b1 + w3 + p + b2, c, body)),
        None => None,
    }
}

/// Parses `IF condition [ statements ]`.
pub fn parse_if(input: &[char]) -> (r: ParseResult<Statement>)
    ensures
        parsed_as(r, spec_parse_if(input@), input@.len()),
        r matches Some((n, _)) ==> n > 0,
    decreases input@.len(), 1int,
{
    reveal(spec_parse_if);
    match keyword_exec(input, Keyword::If) {
        Some(m) => {
            let t = skip(input, m);
            match guarded_block(t) {
                Some((n, c, body)) => Some((m + n, Statement::IF(c, body))),
                None => None,
            }
        },
        None => None,
    }
}

/// Parses `WHILE condition [ statements ]`.
pub fn parse_while(input: &[char]) -> (r: ParseResult<Statement>)
    ensures
        parsed_as(r, spec_parse_while(input@), input@.len()),
        r matches Some((n, _)) ==> n > 0,
    decreases input@.len(), 1int,
{
    reveal(spec_parse_while);
    match keyword_exec(input, Keyword::While) {
        Some(m) => {
            let t = skip(input, m);
            match guarded_block(t) {
                Some((n, c, body)) => Some((m + n, Statement::WHILE(c, body))),
                None => None,
            }
        },
        None => None,
    }
}

fn parameters(t: &[char]) -> (r: (usize, Vec<String>))
    ensures
        spec_parameters(t@) == (r.0 as int, strings_view(r.1@)),
        r.0 <= t@.len(),
    decreases t@.len(),
{
    let w = ws_exec(t);
    if w == 0 {
        let v: Vec<String> = Vec::new();
        assert(strings_view(v@) =~= Seq::<Seq<char>>::empty());
        return (0, v);
    }
    let t1 = skip(t, w);
    match parse_variable(t1) {
        Some((n, Expr::Variable(name))) => {
            let t2 = skip(t, w + n);
            let (m, mut rest) = parameters(t2);
            let ghost old_rest = rest@;
            rest.insert(0, name);
            assert(strings_view(rest@) =~= seq![name@] + strings_view(old_rest));
            (w + n + m, rest)
        },
        _ => {
            let v: Vec<String> = Vec::new();
            assert(strings_view(v@) =~= Seq::<Seq<char>>::empty());
            (0, v)
        },
    }
}

/// Parses `TO name :param ... statements END`, with at least one statement.
pub fn parse_procedure_definition(input: &[char]) -> (r: ParseResult<Statement>)
    ensures
        parsed_as(r, spec_parse_procedure_definition(input@), input@.len()),
        r matches Some((n, _)) ==> n > 0,
    decreases input@.len(), 1int,
{
    reveal(spec_parse_procedure_definition);
    let m = match keyword_exec(input, Keyword::To) {
        Some(m) => m,
        None => {
            return None;
        },
    };
    let t = skip(input, m);
    let w1 = ws_exec(t);
    if w1 == 0 {
        return None;
    }
    let u = skip(t, w1);
    let (k, name) = match parse_identifier(u) {
        Some(p) => p,
        None => {
            return None;
        },
    };
    let u1 = skip(u, k);
    let (p, params) = parameters(u1);
    let v = skip(u, k + p);
    assert(v@ =~= u1@.skip(p as int));
    let w2 = ws_exec(v);
    let x = skip(v, w2);
    let (q, body) = match statements(x) {
        Some(r) => r,
        None => {
            return None;
        },
    };
    if body.len() == 0 {
        proof {
            lemma_statements_view(body@);
        }
        return None;
    }
    proof {
        lemma_statements_view(body@);
    }
    let z = skip(x, q);
    match keyword_exec(z, Keyword::End) {
        Some(e) => Some(
            (m + w1 + k + p + w2 + q + e, Statement::ProceduresDefinition(name, params, body)),
        ),
        None => None,
    }
}

/// Parses a statement: the alternatives in order, a comment last.
#[verifier::rlimit(60)]
#[verifier::spinoff_prover]
pub fn parse_statement(input: &[char]) -> (r: ParseResult<Statement>)
    ensures
        parsed_as(r, spec_parse_statement(input@), input@.len()),
        r matches Some((n, _)) ==> n > 0,
    decreases input@.len(), 2int,
{
    if let Some(r) = parse_make(input) {
        Some(r)
    } else if let Some(r) = parse_addassign(input) {
        Some(r)
    } else if let Some(r) = parse_penup(input) {
        Some(r)
    } else if let Some(r) = parse_pendown(input) {
        Some(r)
    } else if let Some(r) = parse_command(input, Keyword::Forward) {
        Some(r)
    } else if let Some(r) = parse_command(input, Keyword::Back) {
        Some(r)
    } else if let Some(r) = parse_command(input, Keyword::Left) {
        Some(r)
    } else if let Some(r) = parse_command(input, Keyword::Right) {
        Some(r)
    } else if let Some(r) = parse_command(input, Keyword::Turn) {
        Some(r)
    } else if let Some(r) = parse_command(input, Keyword::SetPenColor) {
        Some(r)
    } else if let Some(r) = parse_command(input, Keyword::SetHeading) {
        Some(r)
    } else if let Some(r) = parse_command(input, Keyword::SetX) {
        Some(r)
    } else if let Some(r) = parse_command(input, Keyword::SetY) {
        Some(r)
    } else if let Some(r) = parse_procedure_definition(input) {
        Some(r)
    } else if let Some(r) = parse_if(input) {
        Some(r)
    } else if let Some(r) = parse_while(input) {
        Some(r)
    } else {
        match parse_comment(input) {
            Some((n, _)) => Some((n, Statement::Comment)),
            None => None,
        }
    }
}

/// One step of the repetition of statements.
proof fn lemma_statements_step(s: Seq<char>)
    ensures
        0 <= ws(s) <= s.len(),
        spec_parse_statement(s.skip(ws(s))) is None ==> spec_statements(s) == Some(
            (0int, Seq::<SpecStatement>::empty()),
        ),
        spec_parse_statement(s.skip(ws(s))) matches Some((n, st)) ==> (0 <= n && ws(s) + n
            <= s.len() && ws(s) + n + ws(s.skip(ws(s) + n)) > 0 ==> spec_statements(s)
            == after_prefix(
            ws(s) + n + ws(s.skip(ws(s) + n)),
            seq![st],
            spec_statements(s.skip(ws(s) + n + ws(s.skip(ws(s) + n)))),
        )),
{
    reveal_with_fuel(spec_statements, 1);
    lemma_span(s, CharClass::Space);
    if let Some((n, st)) = spec_parse_statement(s.skip(ws(s))) {
        if 0 <= n && ws(s) + n <= s.len() {
            lemma_span(s.skip(ws(s) + n), CharClass::Space);
        }
    }
}

/// Statements with optional white space around each, as many as follow.
fn statements(s: &[char]) -> (r: Option<(usize, Vec<Statement>)>)
    ensures
        match r {
            Some((n, v)) => spec_statements(s@) == Some((n as int, statements_view(v@))) && n
                <= s@.len(),
            None => spec_statements(s@) is None,
        },
    decreases s@.len(), 3int,
{
    let mut pos: usize = 0;
    let mut acc: Vec<Statement> = Vec::new();
    assert(s@.skip(0) =~= s@);
    assert(statements_view(acc@) =~= Seq::<SpecStatement>::empty());
    assert(after_prefix(0, Seq::empty(), spec_statements(s@)) =~= spec_statements(s@));
    loop
        invariant
            pos <= s@.len(),
            spec_statements(s@) == after_prefix(
                pos as int,
                statements_view(acc@),
                spec_statements(s@.skip(pos as int)),
            ),
        decreases s@.len() - pos,
    {
        let rest = skip(s, pos);
        let w0 = ws_exec(rest);
        proof {
            lemma_span(rest@, CharClass::Space);
        }
        let t = skip(rest, w0);
        match parse_statement(t) {
            Some((n, st)) => {
                let u = skip(t, n);
                let w1 = ws_exec(u);
                let used = w0 + n + w1;
                if used == 0 {
                    return None;
                }
                let ghost old_acc = acc@;
                let ghost st_view = st@;
                acc.push(st);
                proof {
                    lemma_statements_step(rest@);
                    assert(rest@.skip(used as int) =~= s@.skip(pos + used));
                    assert(u@ =~= rest@.skip(w0 + n));
                    lemma_statements_view(old_acc);
                    lemma_statements_view(acc@);
                    assert(statements_view(acc@) =~= statements_view(old_acc) + seq![st_view]);
                    match spec_statements(s@.skip(pos + used)) {
                        Some((m2, rest2)) => {
                            assert(statements_view(old_acc) + (seq![st_view] + rest2)
                                =~= statements_view(acc@) + rest2);
                        },
                        None => {},
                    }
                }
                pos = pos + used;
            },
            None => {
                proof {
                    lemma_statements_step(rest@);
                }
                assert(s@.skip(pos as int) == rest@);
                assert(statements_view(acc@) + Seq::<SpecStatement>::empty() =~= statements_view(
                    acc@,
                ));
                return Some((pos, acc));
            },
        }
    }
}

fn program_item(t: &[char]) -> (r: Option<(usize, Option<Statement>)>)
    ensures
        match r {
            Some((n, Some(st))) => spec_program_item(t@) == Some((n as int, Some(st@))) && 0 < n
                <= t@.len(),
            Some((n, None)) => spec_program_item(t@) == Some((n as int, None::<SpecStatement>))
                && 0 < n <= t@.len(),
            None => spec_program_item(t@) is None,
        },
{
    match parse_statement(t) {
        Some((n, st)) => Some((n, Some(st))),
        None => match parse_comment(t) {
            Some((n, _)) => Some((n, None)),
            None => None,
        },
    }
}

/// Parses a program: statements and comments with optional white space
/// around each, as many as follow. The parse always succeeds, and stops
/// only where no statement or comment follows the white space; that text
/// is left unconsumed.
#[verifier::rlimit(60)]
#[verifier::spinoff_prover]
pub fn parse_program(input: &[char]) -> (r: ParseResult<Program>)
    ensures
        parsed_as(r, spec_parse_program(input@), input@.len()),
        r is Some,
        r matches Some((n, _)) ==> ({
            let after = input@.skip(n as int);
            spec_program_item(after.skip(ws(after))) is None
        }),
{
    let mut pos: usize = 0;
    let mut acc: Vec<Statement> = Vec::new();
    assert(input@.skip(0) =~= input@);
    assert(statements_view(acc@) =~= Seq::<SpecStatement>::empty());
    assert(after_prefix(0, Seq::empty(), spec_parse_program(input@)) =~= spec_parse_program(
        input@,
    ));
    loop
        invariant
            pos <= input@.len(),
            spec_parse_program(input@) == after_prefix(
                pos as int,
                statements_view(acc@),
                spec_parse_program(input@.skip(pos as int)),
            ),
        decreases input@.len() - pos,
    {
        let rest = skip(input, pos);
        let w0 = ws_exec(rest);
        let t = skip(rest, w0);
        match program_item(t) {
            Some((n, item)) => {
                let u = skip(t, n);
                let w1 = ws_exec(u);
                let used = w0 + n + w1;
                let ghost old_acc = acc@;
                let ghost item_view: Option<SpecStatement> = match item {
                    Some(ref st) => Some(st@),
                    None => None,
                };
                match item {
                    Some(st) => {
                        acc.push(st);
                    },
                    None => {},
                }
                proof {
                    assert(rest@.skip(used as int) =~= input@.skip(pos + used));
                    assert(u@ =~= rest@.skip(w0 + n));
                    lemma_statements_view(old_acc);
                    lemma_statements_view(acc@);
                    match item_view {
                        Some(sv) => {
                            assert(statements_view(acc@) =~= statements_view(old_acc) + seq![sv]);
                            match spec_parse_program(input@.skip(pos + used)) {
                                Some((m2, rest2)) => {
                                    assert(statements_view(old_acc) + (seq![sv] + rest2)
                                        =~= statements_view(acc@) + rest2);
                                },
                                None => {},
                            }
                        },
                        None => {
                            assert(statements_view(acc@) =~= statements_view(old_acc));
                        },
                    }
                }
                pos = pos + used;
            },
            None => {
                assert(input@.skip(pos as int) == rest@);
                assert(statements_view(acc@) + Seq::<SpecStatement>::empty() =~= statements_view(
                    acc@,
                ));
                return Some((pos, Program { statements: acc }));
            },
        }
    }
}

} // verus!
