//! What running a Logo program does, stated over the mathematical view of
//! the turtle and the syntax tree.
//!
//! Values are strings. Numbers are read with `str::parse::<i32>` and
//! written with `i32::to_string`; truth values likewise with `bool`.
//! A condition holds when its value, upper-cased, is `TRUE`.
//! Where the arithmetic of a program would overflow `i32`, divide by zero,
//! pick a colour outside the palette, or move outside the range the
//! drawing library computes safely, running stops with an error.
//!
//! The end point of a move comes from the drawing library's floating-point
//! computation, which nothing here pins down: a run is stated for every
//! sequence `ends` of end points the library may give, the `k`-th move of
//! the turtle's life ending at `ends[k]`.

use vstd::prelude::*;
use crate::text::{spec_parse_i32, spec_display_i32, spec_parse_bool, spec_display_bool, uppercase_of};
use crate::logo_syntax::{ProgramProcedure, SpecExpr, SpecStatement};
use crate::drawing::{line_in_range, EndPoint};

verus! {

/// A straight line the turtle drew: from `(x, y)`, `length` units along
/// `direction` degrees, in palette colour `color`.
#[derive(Debug, Clone, Copy, PartialEq, Eq)]
pub struct Segment {
    pub x: i32,
    pub y: i32,
    pub direction: i32,
    pub length: i32,
    pub color: u32,
}

/// The turtle, its variables and what it has drawn.
pub struct TurtleState {
    pub x: i32,
    pub y: i32,
    pub heading: i32,
    pub pen_down: bool,
    pub pen_color: u32,
    pub variables: Map<Seq<char>, Seq<char>>,
    pub segments: Seq<Segment>,
    /// How many moves the turtle has made: the index of the next end point.
    pub moves: nat,
    /// The width of the image the lines are drawn on.
    pub width: u32,
    /// The height of the image the lines are drawn on.
    pub height: u32,
}

/// `longer` starts with `shorter`.
pub open spec fn extends(shorter: Seq<EndPoint>, longer: Seq<EndPoint>) -> bool {
    shorter.len() <= longer.len() && forall|i: int|
        0 <= i < shorter.len() ==> #[trigger] shorter[i] == longer[i]
}

/// Why running stopped.
pub enum SpecError {
    /// A value used as a distance, angle or colour is not an integer.
    CannotConvertToNumber,
    /// The variable named, or the amount added to it, is not an integer.
    CannotConvertNameToNumber(Seq<char>),
    /// No variable has this name.
    UndefinedVariable(Seq<char>),
    /// `ADDASSIGN` names its variable with something other than a
    /// variable or a quoted word.
    InvalidVariableName(SpecExpr),
    /// An operand of a comparison or of arithmetic is not an integer.
    CannotConvertToInteger,
    /// An operand of `AND` or `OR` is not `true` or `false`.
    CannotConvertToBoolean,
    /// A statement that is not run (procedure definitions).
    UnimplementedStatement(SpecStatement),
    /// An expression that is not evaluated (procedure calls).
    UnimplementedExpression(SpecExpr),
    /// Integer arithmetic outside `i32`.
    ArithmeticOverflow,
    /// Division by zero.
    DivisionByZero,
    /// Drawing with a pen colour outside the 16-colour palette.
    InvalidPenColor(u32),
    /// A move too far for the drawing library's coordinates.
    CoordinateOutOfRange,
    /// A `WHILE` loop ran more times than the run allows.
    LoopLimit,
}

/// Division truncating toward zero, as Rust's `/` on integers.
pub open spec fn trunc_div(a: int, b: int) -> int {
    if a >= 0 {
        if b > 0 {
            a / b
        } else {
            -(a / (-b))
        }
    } else {
        if b > 0 {
            -((-a) / b)
        } else {
            (-a) / (-b)
        }
    }
}

/// Remainder with the sign of the dividend, as Rust's `%` on integers.
pub open spec fn trunc_rem(a: int, b: int) -> int {
    a - b * trunc_div(a, b)
}

pub open spec fn fits_i32(v: int) -> bool {
    i32::MIN <= v <= i32::MAX
}

/// The text `TRUE`.
pub open spec fn true_text() -> Seq<char> {
    seq!['T', 'R', 'U', 'E']
}

/// A value counts as true when its upper-casing is `TRUE`.
pub open spec fn is_true(v: Seq<char>) -> bool {
    uppercase_of(v) == true_text()
}

/// The value of a turtle query.
pub open spec fn query_value(st: TurtleState, p: ProgramProcedure) -> i32 {
    match p {
        ProgramProcedure::XCOR => st.x,
        ProgramProcedure::YCOR => st.y,
        ProgramProcedure::HEADING => st.heading,
        ProgramProcedure::COLOR => st.pen_color as i32,
    }
}

/// The result of integer arithmetic on two operands.
pub open spec fn arithmetic(e: SpecExpr, a: i32, b: i32) -> Result<Seq<char>, SpecError> {
    match e {
        SpecExpr::ADD(..) => if fits_i32(a + b) {
            Ok(spec_display_i32((a + b) as i32))
        } else {
            Err(SpecError::ArithmeticOverflow)
        },
        SpecExpr::SUB(..) => if fits_i32(a - b) {
            Ok(spec_display_i32((a - b) as i32))
        } else {
            Err(SpecError::ArithmeticOverflow)
        },
        SpecExpr::MUL(..) => if fits_i32(a * b) {
            Ok(spec_display_i32((a * b) as i32))
        } else {
            Err(SpecError::ArithmeticOverflow)
        },
        SpecExpr::DIV(..) => if b == 0 {
            Err(SpecError::DivisionByZero)
        } else if a == i32::MIN && b == -1 {
            Err(SpecError::ArithmeticOverflow)
        } else {
            Ok(spec_display_i32(trunc_div(a as int, b as int) as i32))
        },
        SpecExpr::EQ(..) => Ok(spec_display_bool(a == b)),
        SpecExpr::LT(..) => Ok(spec_display_bool(a < b)),
        SpecExpr::GT(..) => Ok(spec_display_bool(a > b)),
        _ => Ok(spec_display_bool(a != b)),
    }
}

/// The value of an expression in state `st`.
pub open spec fn spec_eval(st: TurtleState, e: SpecExpr) -> Result<Seq<char>, SpecError>
    decreases e, 1int,
{
    match e {
        SpecExpr::Literal(s) => Ok(s),
        SpecExpr::Variable(name) => if st.variables.contains_key(name) {
            Ok(st.variables[name])
        } else {
            Err(SpecError::UndefinedVariable(name))
        },
        SpecExpr::ProgramProcedure(p) => Ok(spec_display_i32(query_value(st, p))),
        SpecExpr::ProcedureCall(..) => Err(SpecError::UnimplementedExpression(e)),
        SpecExpr::AND(..) => match spec_bool_operands(st, e) {
            Ok((a, b)) => Ok(spec_display_bool(a && b)),
            Err(err) => Err(err),
        },
        SpecExpr::OR(..) => match spec_bool_operands(st, e) {
            Ok((a, b)) => Ok(spec_display_bool(a || b)),
            Err(err) => Err(err),
        },
        _ => match spec_int_operands(st, e) {
            Ok((a, b)) => arithmetic(e, a, b),
            Err(err) => Err(err),
        },
    }
}

/// The two operands of an integer operation, evaluated left to right,
/// each read as an integer.
pub open spec fn spec_int_operands(st: TurtleState, e: SpecExpr) -> Result<(i32, i32), SpecError>
    decreases e, 0int,
{
    match e {
        SpecExpr::ADD(a, b) | SpecExpr::SUB(a, b) | SpecExpr::MUL(a, b) | SpecExpr::DIV(a, b)
        | SpecExpr::EQ(a, b) | SpecExpr::LT(a, b) | SpecExpr::GT(a, b) | SpecExpr::NE(a, b) => {
            match spec_eval(st, *a) {
                Err(err) => Err(err),
                Ok(va) => match spec_parse_i32(va) {
                    None => Err(SpecError::CannotConvertToInteger),
                    Some(x) => match spec_eval(st, *b) {
                        Err(err) => Err(err),
                        Ok(vb) => match spec_parse_i32(vb) {
                            None => Err(SpecError::CannotConvertToInteger),
                            Some(y) => Ok((x, y)),
                        },
                    },
                },
            }
        },
        _ => Err(SpecError::CannotConvertToInteger),
    }
}

/// The two operands of `AND` or `OR`, evaluated left to right, each read
/// as a truth value.
pub open spec fn spec_bool_operands(st: TurtleState, e: SpecExpr) -> Result<(bool, bool), SpecError>
    decreases e, 0int,
{
    match e {
        SpecExpr::AND(a, b) | SpecExpr::OR(a, b) => {
            match spec_eval(st, *a) {
                Err(err) => Err(err),
                Ok(va) => match spec_parse_bool(va) {
                    None => Err(SpecError::CannotConvertToBoolean),
                    Some(x) => match spec_eval(st, *b) {
                        Err(err) => Err(err),
                        Ok(vb) => match spec_parse_bool(vb) {
                            None => Err(SpecError::CannotConvertToBoolean),
                            Some(y) => Ok((x, y)),
                        },
                    },
                },
            }
        },
        _ => Err(SpecError::CannotConvertToBoolean),
    }
}

/// The value of an expression read as a number (distance, angle, colour).
pub open spec fn spec_eval_number(st: TurtleState, e: SpecExpr) -> Result<i32, SpecError> {
    match spec_eval(st, e) {
        Err(err) => Err(err),
        Ok(v) => match spec_parse_i32(v) {
            Some(n) => Ok(n),
            None => Err(SpecError::CannotConvertToNumber),
        },
    }
}

/// The outcome of a step: the state, and the error that stopped it if any.
pub type Outcome = (TurtleState, Option<SpecError>);

/// Moving `distance` along `direction` (`FORWARD` and `BACK` along the
/// heading, `LEFT` and `RIGHT` across it): with the pen down the colour is
/// checked first; the move must stay where the drawing library computes
/// safely; the turtle then goes to the next end point the library gave,
/// drawing the line if the pen is down.
pub open spec fn spec_move(st: TurtleState, direction: i32, distance: i32, ends: Seq<EndPoint>) -> Outcome {
    if st.pen_down && st.pen_color >= 16 {
        (st, Some(SpecError::InvalidPenColor(st.pen_color)))
    } else if !line_in_range(st.x, st.y, distance) {
        (st, Some(SpecError::CoordinateOutOfRange))
    } else {
        let end = ends[st.moves as int];
        let moved = TurtleState { x: end.0, y: end.1, moves: st.moves + 1, ..st };
        if st.pen_down {
            (
                TurtleState {
                    segments: st.segments.push(
                        Segment { x: st.x, y: st.y, direction, length: distance, color: st.pen_color },
                    ),
                    ..moved
                },
                None,
            )
        } else {
            (moved, None)
        }
    }
}

/// The variable that `ADDASSIGN` updates: the value of a variable, or a
/// quoted word itself.
pub open spec fn spec_target_name(st: TurtleState, v: SpecExpr) -> Result<Seq<char>, SpecError> {
    match v {
        SpecExpr::Variable(name) => if st.variables.contains_key(name) {
            Ok(st.variables[name])
        } else {
            Err(SpecError::UndefinedVariable(name))
        },
        SpecExpr::Literal(name) => Ok(name),
        _ => Err(SpecError::InvalidVariableName(v)),
    }
}

/// `ADDASSIGN v e`: adds the number `e` to the variable that `v` names.
pub open spec fn spec_add_assign(st: TurtleState, v: SpecExpr, e: SpecExpr) -> Outcome {
    match spec_target_name(st, v) {
        Err(err) => (st, Some(err)),
        Ok(name) => if !st.variables.contains_key(name) {
            (st, Some(SpecError::UndefinedVariable(name)))
        } else {
            match spec_parse_i32(st.variables[name]) {
                None => (st, Some(SpecError::CannotConvertNameToNumber(name))),
                Some(current) => match spec_eval(st, e) {
                    Err(err) => (st, Some(err)),
                    Ok(va) => match spec_parse_i32(va) {
                        None => (st, Some(SpecError::CannotConvertNameToNumber(name))),
                        Some(add) => if fits_i32(current + add) {
                            (
                                TurtleState {
                                    variables: st.variables.insert(
                                        name,
                                        spec_display_i32((current + add) as i32),
                                    ),
                                    ..st
                                },
                                None,
                            )
                        } else {
                            (st, Some(SpecError::ArithmeticOverflow))
                        },
                    },
                },
            }
        },
    }
}

/// The absolute value where it fits in `i32`, else an overflow.
pub open spec fn checked_abs(n: i32) -> Result<i32, SpecError> {
    if n == i32::MIN {
        Err(SpecError::ArithmeticOverflow)
    } else if n < 0 {
        Ok((-n) as i32)
    } else {
        Ok(n)
    }
}

/// Running a statement that moves or draws: `PENUP`, `PENDOWN`,
/// `FORWARD`, `BACK`, `LEFT`, `RIGHT`.
#[verifier::opaque]
pub open spec fn spec_motion(st: TurtleState, s: SpecStatement, ends: Seq<EndPoint>) -> Outcome {
    match s {
        SpecStatement::PenUp => (TurtleState { pen_down: false, ..st }, None),
        SpecStatement::PenDown => (TurtleState { pen_down: true, ..st }, None),
        SpecStatement::Forward(e) => match spec_eval_number(st, e) {
            Err(err) => (st, Some(err)),
            Ok(d) => spec_move(st, st.heading, d, ends),
        },
        SpecStatement::Back(e) => match spec_eval_number(st, e) {
            Err(err) => (st, Some(err)),
            Ok(d) => if d == i32::MIN {
                (st, Some(SpecError::ArithmeticOverflow))
            } else {
                spec_move(st, st.heading, (-d) as i32, ends)
            },
        },
        SpecStatement::Left(e) => match spec_eval_number(st, e) {
            Err(err) => (st, Some(err)),
            Ok(d) => if !fits_i32(st.heading - 90) || !fits_i32(st.heading - 90 + 360) {
                (st, Some(SpecError::ArithmeticOverflow))
            } else {
                spec_move(st, trunc_rem(st.heading - 90 + 360, 360) as i32, d, ends)
            },
        },
        SpecStatement::Right(e) => match spec_eval_number(st, e) {
            Err(err) => (st, Some(err)),
            Ok(d) => if !fits_i32(st.heading + 90) {
                (st, Some(SpecError::ArithmeticOverflow))
            } else {
                spec_move(st, trunc_rem(st.heading + 90, 360) as i32, d, ends)
            },
        },
        _ => (st, None),
    }
}

/// Running a statement that sets the heading, pen colour or a coordinate:
/// `TURN`, `SETPENCOLOR`, `SETHEADING`, `SETX`, `SETY`.
#[verifier::opaque]
pub open spec fn spec_setting(st: TurtleState, s: SpecStatement) -> Outcome {
    match s {
        SpecStatement::Turn(e) => match spec_eval_number(st, e) {
            Err(err) => (st, Some(err)),
            Ok(a) => if fits_i32(st.heading + a) {
                (TurtleState { heading: (st.heading + a) as i32, ..st }, None)
            } else {
                (st, Some(SpecError::ArithmeticOverflow))
            },
        },
        SpecStatement::SetPenColor(e) => match spec_eval_number(st, e) {
            Err(err) => (st, Some(err)),
            Ok(c) => (TurtleState { pen_color: c as u32, ..st }, None),
        },
        SpecStatement::SetHeading(e) => match spec_eval_number(st, e) {
            Err(err) => (st, Some(err)),
            Ok(a) => match checked_abs(a) {
                Err(err) => (st, Some(err)),
                Ok(h) => (TurtleState { heading: h, ..st }, None),
            },
        },
        SpecStatement::SetX(e) => match spec_eval_number(st, e) {
            Err(err) => (st, Some(err)),
            Ok(a) => match checked_abs(a) {
                Err(err) => (st, Some(err)),
                Ok(v) => (TurtleState { x: v, ..st }, None),
            },
        },
        SpecStatement::SetY(e) => match spec_eval_number(st, e) {
            Err(err) => (st, Some(err)),
            Ok(a) => match checked_abs(a) {
                Err(err) => (st, Some(err)),
                Ok(v) => (TurtleState { y: v, ..st }, None),
            },
        },
        _ => (st, None),
    }
}

/// Running `MAKE`, `ADDASSIGN`, a procedure definition or a comment.
#[verifier::opaque]
pub open spec fn spec_other(st: TurtleState, s: SpecStatement) -> Outcome {
    match s {
        SpecStatement::MakeVariable(v, e) => match spec_eval(st, v) {
            Err(err) => (st, Some(err)),
            Ok(name) => match spec_eval(st, e) {
                Err(err) => (st, Some(err)),
                Ok(value) => (
                    TurtleState { variables: st.variables.insert(name, value), ..st },
                    None,
                ),
            },
        },
        SpecStatement::AddAssign(v, e) => spec_add_assign(st, v, e),
        SpecStatement::ProceduresDefinition(..) => (
            st,
            Some(SpecError::UnimplementedStatement(s)),
        ),
        SpecStatement::Comment => (st, None),
        _ => (st, None),
    }
}

/// Running one statement with at most `fuel` iterations of each `WHILE`
/// loop it enters, the moves ending at the points `ends` gives.
pub open spec fn spec_run(fuel: nat, ends: Seq<EndPoint>, st: TurtleState, s: SpecStatement) -> Outcome
    decreases fuel, s,
{
    match s {
        SpecStatement::IF(c, body) => match spec_eval(st, c) {
            Err(err) => (st, Some(err)),
            Ok(v) => if is_true(v) {
                spec_run_block(fuel, ends, st, body)
            } else {
                (st, None)
            },
        },
        SpecStatement::WHILE(c, body) => match spec_eval(st, c) {
            Err(err) => (st, Some(err)),
            Ok(v) => if !is_true(v) {
                (st, None)
            } else if fuel == 0 {
                (st, Some(SpecError::LoopLimit))
            } else {
                let (st1, err) = spec_run_block(fuel, ends, st, body);
                if err is Some {
                    (st1, err)
                } else {
                    spec_run((fuel - 1) as nat, ends, st1, s)
                }
            },
        },
        SpecStatement::PenUp | SpecStatement::PenDown | SpecStatement::Forward(_)
        | SpecStatement::Back(_) | SpecStatement::Left(_) | SpecStatement::Right(_) => spec_motion(
            st,
            s,
            ends,
        ),
        SpecStatement::Turn(_) | SpecStatement::SetPenColor(_) | SpecStatement::SetHeading(_)
        | SpecStatement::SetX(_) | SpecStatement::SetY(_) => spec_setting(st, s),
        _ => spec_other(st, s),
    }
}

/// Running statements in order, stopping at the first error.
pub open spec fn spec_run_block(fuel: nat, ends: Seq<EndPoint>, st: TurtleState, b: Seq<SpecStatement>) -> Outcome
    decreases fuel, b,
{
    if b.len() == 0 {
        (st, None)
    } else {
        let (st1, err) = spec_run(fuel, ends, st, b[0]);
        if err is Some {
            (st1, err)
        } else {
            spec_run_block(fuel, ends, st1, b.subrange(1, b.len() as int))
        }
    }
}

/// How many times each `WHILE` loop of a run may iterate.
pub open spec fn loop_fuel() -> nat {
    u64::MAX as nat
}

/// The number of moves never goes down.
pub proof fn lemma_run_moves(fuel: nat, ends: Seq<EndPoint>, st: TurtleState, s: SpecStatement)
    ensures
        spec_run(fuel, ends, st, s).0.moves >= st.moves,
    decreases fuel, s, 1int,
{
    match s {
        SpecStatement::IF(_, body) => {
            lemma_run_block_moves(fuel, ends, st, body);
        },
        SpecStatement::WHILE(c, body) => {
            if fuel > 0 {
                lemma_run_block_moves(fuel, ends, st, body);
                let (st1, err) = spec_run_block(fuel, ends, st, body);
                lemma_run_moves((fuel - 1) as nat, ends, st1, s);
            }
        },
        _ => {
            reveal(spec_motion);
            reveal(spec_setting);
            reveal(spec_other);
        },
    }
}

/// The number of moves never goes down over a list of statements.
pub proof fn lemma_run_block_moves(
    fuel: nat,
    ends: Seq<EndPoint>,
    st: TurtleState,
    b: Seq<SpecStatement>,
)
    ensures
        spec_run_block(fuel, ends, st, b).0.moves >= st.moves,
    decreases fuel, b, 0int,
{
    if b.len() > 0 {
        lemma_run_moves(fuel, ends, st, b[0]);
        let (st1, err) = spec_run(fuel, ends, st, b[0]);
        lemma_run_block_moves(fuel, ends, st1, b.subrange(1, b.len() as int));
    }
}

/// A run reads only the end points of the moves it makes: given more end
/// points after those, it does the same.
pub proof fn lemma_run_frame(
    fuel: nat,
    ends: Seq<EndPoint>,
    more: Seq<EndPoint>,
    st: TurtleState,
    s: SpecStatement,
)
    requires
        extends(ends, more),
        spec_run(fuel, ends, st, s).0.moves <= ends.len(),
    ensures
        spec_run(fuel, more, st, s) == spec_run(fuel, ends, st, s),
    decreases fuel, s, 1int,
{
    match s {
        SpecStatement::IF(c, body) => {
            if let Ok(v) = spec_eval(st, c) {
                if is_true(v) {
                    lemma_run_block_frame(fuel, ends, more, st, body);
                }
            }
        },
        SpecStatement::WHILE(c, body) => {
            if let Ok(v) = spec_eval(st, c) {
                if is_true(v) && fuel > 0 {
                    let (st1, err) = spec_run_block(fuel, ends, st, body);
                    if err is None {
                        lemma_run_moves((fuel - 1) as nat, ends, st1, s);
                        lemma_run_frame((fuel - 1) as nat, ends, more, st1, s);
                    }
                    lemma_run_block_frame(fuel, ends, more, st, body);
                }
            }
        },
        SpecStatement::PenUp | SpecStatement::PenDown | SpecStatement::Forward(_)
        | SpecStatement::Back(_) | SpecStatement::Left(_) | SpecStatement::Right(_) => {
            reveal(spec_motion);
            assert(st.moves < ends.len() ==> ends[st.moves as int] == more[st.moves as int]);
        },
        _ => {},
    }
}

/// A list of statements reads only the end points of the moves it makes.
pub proof fn lemma_run_block_frame(
    fuel: nat,
    ends: Seq<EndPoint>,
    more: Seq<EndPoint>,
    st: TurtleState,
    b: Seq<SpecStatement>,
)
    requires
        extends(ends, more),
        spec_run_block(fuel, ends, st, b).0.moves <= ends.len(),
    ensures
        spec_run_block(fuel, more, st, b) == spec_run_block(fuel, ends, st, b),
    decreases fuel, b, 0int,
{
    if b.len() > 0 {
        let (st1, err) = spec_run(fuel, ends, st, b[0]);
        if err is None {
            lemma_run_block_moves(fuel, ends, st1, b.subrange(1, b.len() as int));
            lemma_run_block_frame(fuel, ends, more, st1, b.subrange(1, b.len() as int));
        }
        lemma_run_frame(fuel, ends, more, st, b[0]);
    }
}

} // verus!
