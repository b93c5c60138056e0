//! The syntax tree of Logo programs, and its mathematical view.

use vstd::prelude::*;

verus! {

/// The turtle's own queries, which evaluate to a part of its state.
#[derive(Debug, PartialEq, Eq, Clone, Copy)]
pub enum ProgramProcedure {
    XCOR,
    YCOR,
    HEADING,
    COLOR,
}

/// Expressions: things that produce a value.
#[derive(Debug, PartialEq)]
pub enum Expr {
    Variable(String),
    Literal(String),
    ProcedureCall(String, Vec<Expr>),
    ProgramProcedure(ProgramProcedure),
    ADD(Box<Expr>, Box<Expr>),
    SUB(Box<Expr>, Box<Expr>),
    MUL(Box<Expr>, Box<Expr>),
    DIV(Box<Expr>, Box<Expr>),
    EQ(Box<Expr>, Box<Expr>),
    LT(Box<Expr>, Box<Expr>),
    GT(Box<Expr>, Box<Expr>),
    NE(Box<Expr>, Box<Expr>),
    AND(Box<Expr>, Box<Expr>),
    OR(Box<Expr>, Box<Expr>),
}

/// Statements: things that act on the turtle or on variables.
#[derive(Debug, PartialEq)]
pub enum Statement {
    MakeVariable(Expr, Expr),
    AddAssign(Expr, Expr),
    PenUp,
    PenDown,
    Left(Expr),
    Right(Expr),
    Forward(Expr),
    Back(Expr),
    Turn(Expr),
    SetPenColor(Expr),
    SetHeading(Expr),
    SetX(Expr),
    SetY(Expr),
    ProceduresDefinition(String, Vec<String>, Vec<Statement>),
    Comment,
    IF(Expr, Vec<Statement>),
    WHILE(Expr, Vec<Statement>),
}

/// A whole program: its statements in order.
#[derive(Debug, PartialEq)]
pub struct Program {
    pub statements: Vec<Statement>,
}

/// The mathematical form of an [`Expr`]: strings as character sequences.
pub enum SpecExpr {
    Variable(Seq<char>),
    Literal(Seq<char>),
    ProcedureCall(Seq<char>, Seq<SpecExpr>),
    ProgramProcedure(ProgramProcedure),
    ADD(Box<SpecExpr>, Box<SpecExpr>),
    SUB(Box<SpecExpr>, Box<SpecExpr>),
    MUL(Box<SpecExpr>, Box<SpecExpr>),
    DIV(Box<SpecExpr>, Box<SpecExpr>),
    EQ(Box<SpecExpr>, Box<SpecExpr>),
    LT(Box<SpecExpr>, Box<SpecExpr>),
    GT(Box<SpecExpr>, Box<SpecExpr>),
    NE(Box<SpecExpr>, Box<SpecExpr>),
    AND(Box<SpecExpr>, Box<SpecExpr>),
    OR(Box<SpecExpr>, Box<SpecExpr>),
}

/// The mathematical form of a [`Statement`].
pub enum SpecStatement {
    MakeVariable(SpecExpr, SpecExpr),
    AddAssign(SpecExpr, SpecExpr),
    PenUp,
    PenDown,
    Left(SpecExpr),
    Right(SpecExpr),
    Forward(SpecExpr),
    Back(SpecExpr),
    Turn(SpecExpr),
    SetPenColor(SpecExpr),
    SetHeading(SpecExpr),
    SetX(SpecExpr),
    SetY(SpecExpr),
    ProceduresDefinition(Seq<char>, Seq<Seq<char>>, Seq<SpecStatement>),
    Comment,
    IF(SpecExpr, Seq<SpecStatement>),
    WHILE(SpecExpr, Seq<SpecStatement>),
}

pub open spec fn expr_view(e: Expr) -> SpecExpr
    decreases e,
{
    match e {
        Expr::Variable(s) => SpecExpr::Variable(s@),
        Expr::Literal(s) => SpecExpr::Literal(s@),
        Expr::ProcedureCall(name, args) => SpecExpr::ProcedureCall(name@, exprs_view(args@)),
        Expr::ProgramProcedure(p) => SpecExpr::ProgramProcedure(p),
        Expr::ADD(a, b) => SpecExpr::ADD(Box::new(expr_view(*a)), Box::new(expr_view(*b))),
        Expr::SUB(a, b) => SpecExpr::SUB(Box::new(expr_view(*a)), Box::new(expr_view(*b))),
        Expr::MUL(a, b) => SpecExpr::MUL(Box::new(expr_view(*a)), Box::new(expr_view(*b))),
        Expr::DIV(a, b) => SpecExpr::DIV(Box::new(expr_view(*a)), Box::new(expr_view(*b))),
        Expr::EQ(a, b) => SpecExpr::EQ(Box::new(expr_view(*a)), Box::new(expr_view(*b))),
        Expr::LT(a, b) => SpecExpr::LT(Box::new(expr_view(*a)), Box::new(expr_view(*b))),
        Expr::GT(a, b) => SpecExpr::GT(Box::new(expr_view(*a)), Box::new(expr_view(*b))),
        Expr::NE(a, b) => SpecExpr::NE(Box::new(expr_view(*a)), Box::new(expr_view(*b))),
        Expr::AND(a, b) => SpecExpr::AND(Box::new(expr_view(*a)), Box::new(expr_view(*b))),
        Expr::OR(a, b) => SpecExpr::OR(Box::new(expr_view(*a)), Box::new(expr_view(*b))),
    }
}

pub open spec fn exprs_view(es: Seq<Expr>) -> Seq<SpecExpr>
    decreases es,
{
    if es.len() == 0 {
        Seq::empty()
    } else {
        seq![expr_view(es[0])] + exprs_view(es.subrange(1, es.len() as int))
    }
}

pub open spec fn strings_view(ss: Seq<String>) -> Seq<Seq<char>> {
    ss.map_values(|s: String| s@)
}

pub open spec fn statement_view(s: Statement) -> SpecStatement
    decreases s,
{
    match s {
        Statement::MakeVariable(a, b) => SpecStatement::MakeVariable(expr_view(a), expr_view(b)),
        Statement::AddAssign(a, b) => SpecStatement::AddAssign(expr_view(a), expr_view(b)),
        Statement::PenUp => SpecStatement::PenUp,
        Statement::PenDown => SpecStatement::PenDown,
        Statement::Left(e) => SpecStatement::Left(expr_view(e)),
        Statement::Right(e) => SpecStatement::Right(expr_view(e)),
        Statement::Forward(e) => SpecStatement::Forward(expr_view(e)),
        Statement::Back(e) => SpecStatement::Back(expr_view(e)),
        Statement::Turn(e) => SpecStatement::Turn(expr_view(e)),
        Statement::SetPenColor(e) => SpecStatement::SetPenColor(expr_view(e)),
        Statement::SetHeading(e) => SpecStatement::SetHeading(expr_view(e)),
        Statement::SetX(e) => SpecStatement::SetX(expr_view(e)),
        Statement::SetY(e) => SpecStatement::SetY(expr_view(e)),
        Statement::ProceduresDefinition(name, params, body) => SpecStatement::ProceduresDefinition(
            name@,
            strings_view(params@),
            statements_view(body@),
        ),
        Statement::Comment => SpecStatement::Comment,
        Statement::IF(c, body) => SpecStatement::IF(expr_view(c), statements_view(body@)),
        Statement::WHILE(c, body) => SpecStatement::WHILE(expr_view(c), statements_view(body@)),
    }
}

pub open spec fn statements_view(ss: Seq<Statement>) -> Seq<SpecStatement>
    decreases ss,
{
    if ss.len() == 0 {
        Seq::empty()
    } else {
        seq![statement_view(ss[0])] + statements_view(ss.subrange(1, ss.len() as int))
    }
}

impl View for Expr {
    type V = SpecExpr;

    open spec fn view(&self) -> SpecExpr {
        expr_view(*self)
    }
}

impl View for Statement {
    type V = SpecStatement;

    open spec fn view(&self) -> SpecStatement {
        statement_view(*self)
    }
}

impl View for Program {
    type V = Seq<SpecStatement>;

    open spec fn view(&self) -> Seq<SpecStatement> {
        statements_view(self.statements@)
    }
}

/// `exprs_view` maps each expression to its view.
pub proof fn lemma_exprs_view(es: Seq<Expr>)
    ensures
        exprs_view(es).len() == es.len(),
        forall|i: int| 0 <= i < es.len() ==> #[trigger] exprs_view(es)[i] == expr_view(es[i]),
    decreases es.len(),
{
    if es.len() > 0 {
        let rest = es.subrange(1, es.len() as int);
        lemma_exprs_view(rest);
        assert forall|i: int| 0 <= i < es.len() implies #[trigger] exprs_view(es)[i] == expr_view(
            es[i],
        ) by {
            if i > 0 {
                assert(rest[i - 1] == es[i]);
            }
        }
    }
}

/// `statements_view` maps each statement to its view.
pub proof fn lemma_statements_view(ss: Seq<Statement>)
    ensures
        statements_view(ss).len() == ss.len(),
        forall|i: int|
            0 <= i < ss.len() ==> #[trigger] statements_view(ss)[i] == statement_view(ss[i]),
    decreases ss.len(),
{
    if ss.len() > 0 {
        let rest = ss.subrange(1, ss.len() as int);
        lemma_statements_view(rest);
        assert forall|i: int| 0 <= i < ss.len() implies #[trigger] statements_view(ss)[i]
            == statement_view(ss[i]) by {
            if i > 0 {
                assert(rest[i - 1] == ss[i]);
            }
        }
    }
}

/// Two sequences of expressions with equal views element by element have equal views.
pub proof fn lemma_exprs_view_ext(a: Seq<Expr>, b: Seq<Expr>)
    requires
        a.len() == b.len(),
        forall|i: int| 0 <= i < a.len() ==> expr_view(#[trigger] a[i]) == expr_view(b[i]),
    ensures
        exprs_view(a) == exprs_view(b),
{
    lemma_exprs_view(a);
    lemma_exprs_view(b);
    assert(exprs_view(a) =~= exprs_view(b));
}

/// Two sequences of statements with equal views element by element have equal views.
pub proof fn lemma_statements_view_ext(a: Seq<Statement>, b: Seq<Statement>)
    requires
        a.len() == b.len(),
        forall|i: int| 0 <= i < a.len() ==> statement_view(#[trigger] a[i]) == statement_view(b[i]),
    ensures
        statements_view(a) == statements_view(b),
{
    lemma_statements_view(a);
    lemma_statements_view(b);
    assert(statements_view(a) =~= statements_view(b));
}

fn copy_string(s: &String) -> (r: String)
    ensures
        r@ == s@,
{
    s.clone()
}

fn copy_strings(ss: &Vec<String>) -> (r: Vec<String>)
    ensures
        strings_view(r@) == strings_view(ss@),
{
    let mut v: Vec<String> = Vec::new();
    let mut i: usize = 0;
    while i < ss.len()
        invariant
            0 <= i <= ss.len(),
            v@.len() == i,
            forall|j: int| 0 <= j < i ==> (#[trigger] v@[j])@ == ss@[j]@,
        decreases ss.len() - i,
    {
        v.push(copy_string(&ss[i]));
        i = i + 1;
    }
    assert(strings_view(v@) =~= strings_view(ss@));
    v
}

fn copy_exprs(es: &Vec<Expr>) -> (r: Vec<Expr>)
    ensures
        exprs_view(r@) == exprs_view(es@),
    decreases es, 1int,
{
    let mut v: Vec<Expr> = Vec::new();
    let mut i: usize = 0;
    while i < es.len()
        invariant
            0 <= i <= es.len(),
            v@.len() == i,
            forall|j: int| 0 <= j < i ==> expr_view(#[trigger] v@[j]) == expr_view(es@[j]),
        decreases es.len() - i,
    {
        let c = es[i].deep_copy();
        v.push(c);
        i = i + 1;
    }
    proof {
        lemma_exprs_view_ext(v@, es@);
    }
    v
}

impl Expr {
    /// A copy of this expression, with the same view.
    pub fn deep_copy(&self) -> (r: Expr)
        ensures
            r@ == self@,
        decreases self, 0int,
    {
        match self {
            Expr::Variable(s) => Expr::Variable(copy_string(s)),
            Expr::Literal(s) => Expr::Literal(copy_string(s)),
            Expr::ProcedureCall(name, args) => Expr::ProcedureCall(copy_string(name), copy_exprs(args)),
            Expr::ProgramProcedure(p) => Expr::ProgramProcedure(*p),
            Expr::ADD(a, b) => Expr::ADD(Box::new(a.deep_copy()), Box::new(b.deep_copy())),
            Expr::SUB(a, b) => Expr::SUB(Box::new(a.deep_copy()), Box::new(b.deep_copy())),
            Expr::MUL(a, b) => Expr::MUL(Box::new(a.deep_copy()), Box::new(b.deep_copy())),
            Expr::DIV(a, b) => Expr::DIV(Box::new(a.deep_copy()), Box::new(b.deep_copy())),
            Expr::EQ(a, b) => Expr::EQ(Box::new(a.deep_copy()), Box::new(b.deep_copy())),
            Expr::LT(a, b) => Expr::LT(Box::new(a.deep_copy()), Box::new(b.deep_copy())),
            Expr::GT(a, b) => Expr::GT(Box::new(a.deep_copy()), Box::new(b.deep_copy())),
            Expr::NE(a, b) => Expr::NE(Box::new(a.deep_copy()), Box::new(b.deep_copy())),
            Expr::AND(a, b) => Expr::AND(Box::new(a.deep_copy()), Box::new(b.deep_copy())),
            Expr::OR(a, b) => Expr::OR(Box::new(a.deep_copy()), Box::new(b.deep_copy())),
        }
    }
}

fn copy_statements(ss: &Vec<Statement>) -> (r: Vec<Statement>)
    ensures
        statements_view(r@) == statements_view(ss@),
    decreases ss, 1int,
{
    let mut v: Vec<Statement> = Vec::new();
    let mut i: usize = 0;
    while i < ss.len()
        invariant
            0 <= i <= ss.len(),
            v@.len() == i,
            forall|j: int| 0 <= j < i ==> statement_view(#[trigger] v@[j]) == statement_view(ss@[j]),
        decreases ss.len() - i,
    {
        let c = ss[i].deep_copy();
        v.push(c);
        i = i + 1;
    }
    proof {
        lemma_statements_view_ext(v@, ss@);
    }
    v
}

impl Statement {
    /// A copy of this statement, with the same view.
    pub fn deep_copy(&self) -> (r: Statement)
        ensures
            r@ == self@,
        decreases self, 0int,
    {
        match self {
            Statement::MakeVariable(a, b) => Statement::MakeVariable(a.deep_copy(), b.deep_copy()),
            Statement::AddAssign(a, b) => Statement::AddAssign(a.deep_copy(), b.deep_copy()),
            Statement::PenUp => Statement::PenUp,
            Statement::PenDown => Statement::PenDown,
            Statement::Left(e) => Statement::Left(e.deep_copy()),
            Statement::Right(e) => Statement::Right(e.deep_copy()),
            Statement::Forward(e) => Statement::Forward(e.deep_copy()),
            Statement::Back(e) => Statement::Back(e.deep_copy()),
            Statement::Turn(e) => Statement::Turn(e.deep_copy()),
            Statement::SetPenColor(e) => Statement::SetPenColor(e.deep_copy()),
            Statement::SetHeading(e) => Statement::SetHeading(e.deep_copy()),
            Statement::SetX(e) => Statement::SetX(e.deep_copy()),
            Statement::SetY(e) => Statement::SetY(e.deep_copy()),
            Statement::ProceduresDefinition(name, params, body) => Statement::ProceduresDefinition(
                copy_string(name),
                copy_strings(params),
                copy_statements(body),
            ),
            Statement::Comment => Statement::Comment,
            Statement::IF(c, body) => Statement::IF(c.deep_copy(), copy_statements(body)),
            Statement::WHILE(c, body) => Statement::WHILE(c.deep_copy(), copy_statements(body)),
        }
    }
}

} // verus!
