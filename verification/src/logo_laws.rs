//! Properties of running Logo programs that hold for every state and
//! every program, proved from the semantics.

use vstd::prelude::*;
use crate::text::{spec_parse_i32, spec_display_i32, spec_display_bool, law_display_parse_i32};
use crate::logo_syntax::{ProgramProcedure, SpecExpr, SpecStatement};
use crate::logo_semantics::{
    Segment, TurtleState, SpecError, fits_i32, is_true, spec_eval, spec_int_operands, spec_run,
    spec_run_block, spec_motion, spec_setting, spec_other, spec_move, spec_eval_number,
};
use crate::drawing::{line_in_range, EndPoint};
use crate::evaluation_laws::lemma_remainder_360;

verus! {

/// Reading a variable gives back what `MAKE` wrote: after
/// `MAKE "name "value` the variable `name` holds `value`, and nothing
/// else changes.
pub proof fn law_make_then_read(fuel: nat, ends: Seq<EndPoint>, st: TurtleState, name: Seq<char>, value: Seq<char>)
    ensures
        spec_run(fuel, ends,
            st,
            SpecStatement::MakeVariable(SpecExpr::Literal(name), SpecExpr::Literal(value)),
        ) == (TurtleState { variables: st.variables.insert(name, value), ..st }, None::<SpecError>),
        spec_eval(
            TurtleState { variables: st.variables.insert(name, value), ..st },
            SpecExpr::Variable(name),
        ) == Ok::<Seq<char>, SpecError>(value),
{
    reveal(spec_other);
}

/// `ADDASSIGN "name amount` adds to a numeric variable: reading the
/// variable back gives the sum, when the sum fits in `i32`.
pub proof fn law_add_assign_adds(
    fuel: nat,
    ends: Seq<EndPoint>,
    st: TurtleState,
    name: Seq<char>,
    current: i32,
    amount: i32,
)
    requires
        st.variables.contains_key(name),
        spec_parse_i32(st.variables[name]) == Some(current),
        fits_i32(current + amount),
    ensures
        ({
            let (after, err) = spec_run(fuel, ends,
                st,
                SpecStatement::AddAssign(
                    SpecExpr::Literal(name),
                    SpecExpr::Literal(spec_display_i32(amount)),
                ),
            );
            &&& err is None
            &&& after.variables.contains_key(name)
            &&& spec_parse_i32(after.variables[name]) == Some((current + amount) as i32)
        }),
{
    reveal(spec_other);
    law_display_parse_i32(amount);
    law_display_parse_i32((current + amount) as i32);
}

/// A comment changes nothing.
pub proof fn law_comment_changes_nothing(fuel: nat, ends: Seq<EndPoint>, st: TurtleState)
    ensures
        spec_run(fuel, ends, st, SpecStatement::Comment) == (st, None::<SpecError>),
{
    reveal(spec_other);
}

/// `TURN a` adds `a` to the heading, when the sum fits in `i32`.
pub proof fn law_turn_adds(fuel: nat, ends: Seq<EndPoint>, st: TurtleState, a: i32)
    requires
        fits_i32(st.heading + a),
    ensures
        spec_run(fuel, ends, st, SpecStatement::Turn(SpecExpr::Literal(spec_display_i32(a))))
            == (TurtleState { heading: (st.heading + a) as i32, ..st }, None::<SpecError>),
{
    reveal(spec_setting);
    law_display_parse_i32(a);
}

/// With the pen down in a palette colour, `FORWARD d` draws exactly one
/// line, from the turtle's position along its heading, and moves the
/// turtle to the end point the drawing library gives for that move.
pub proof fn law_forward_draws_one_line(fuel: nat, ends: Seq<EndPoint>, st: TurtleState, d: i32)
    requires
        st.pen_down,
        st.pen_color < 16,
        line_in_range(st.x, st.y, d),
    ensures
        ({
            let (after, err) = spec_run(fuel, ends,
                st,
                SpecStatement::Forward(SpecExpr::Literal(spec_display_i32(d))),
            );
            let end = ends[st.moves as int];
            &&& err is None
            &&& after.segments == st.segments.push(
                Segment { x: st.x, y: st.y, direction: st.heading, length: d, color: st.pen_color },
            )
            &&& after.x == end.0
            &&& after.y == end.1
            &&& after.moves == st.moves + 1
            &&& after.heading == st.heading
            &&& after.variables == st.variables
        }),
{
    reveal(spec_motion);
    law_display_parse_i32(d);
}

/// Running statements one list after another is running the joined list:
/// the second list starts from where the first ended, unless the first
/// stopped with an error.
pub proof fn law_block_concat(
    fuel: nat,
    ends: Seq<EndPoint>,
    st: TurtleState,
    a: Seq<SpecStatement>,
    b: Seq<SpecStatement>,
)
    ensures
        spec_run_block(fuel, ends, st, a + b) == ({
            let (st1, err) = spec_run_block(fuel, ends, st, a);
            if err is Some {
                (st1, err)
            } else {
                spec_run_block(fuel, ends, st1, b)
            }
        }),
    decreases a.len(),
{
    if a.len() == 0 {
        assert(a + b =~= b);
    } else {
        let (st1, err) = spec_run(fuel, ends, st, a[0]);
        assert((a + b)[0] == a[0]);
        assert((a + b).subrange(1, (a + b).len() as int) =~= a.subrange(1, a.len() as int) + b);
        if err is None {
            law_block_concat(fuel, ends, st1, a.subrange(1, a.len() as int), b);
        }
    }
}

proof fn lemma_move_prefix(st: TurtleState, direction: i32, d: i32, ends: Seq<EndPoint>)
    ensures
        st.segments.is_prefix_of(spec_move(st, direction, d, ends).0.segments),
        !st.pen_down ==> spec_move(st, direction, d, ends).0.segments == st.segments,
{
    assert(st.segments.is_prefix_of(st.segments)) by {
        assert(st.segments.subrange(0, st.segments.len() as int) =~= st.segments);
    }
    let seg = Segment { x: st.x, y: st.y, direction, length: d, color: st.pen_color };
    assert(st.segments.push(seg).subrange(0, st.segments.len() as int) =~= st.segments);
}

proof fn lemma_prefix_trans(a: Seq<Segment>, b: Seq<Segment>, c: Seq<Segment>)
    requires
        a.is_prefix_of(b),
        b.is_prefix_of(c),
    ensures
        a.is_prefix_of(c),
{
    assert(c.subrange(0, a.len() as int) =~= b.subrange(0, a.len() as int));
}

/// Drawing is never undone: whatever a statement does, the lines drawn
/// before it are still the first lines drawn after it.
pub proof fn law_statement_keeps_drawing(fuel: nat, ends: Seq<EndPoint>, st: TurtleState, s: SpecStatement)
    ensures
        st.segments.is_prefix_of(spec_run(fuel, ends, st, s).0.segments),
    decreases fuel, s, 1int,
{
    assert(st.segments.is_prefix_of(st.segments)) by {
        assert(st.segments.subrange(0, st.segments.len() as int) =~= st.segments);
    }
    match s {
        SpecStatement::IF(c, body) => {
            law_block_keeps_drawing(fuel, ends, st, body);
        },
        SpecStatement::WHILE(c, body) => {
            if let Ok(v) = spec_eval(st, c) {
                if fuel > 0 {
                    law_block_keeps_drawing(fuel, ends, st, body);
                    let (st1, err) = spec_run_block(fuel, ends, st, body);
                    if err is None {
                        law_statement_keeps_drawing((fuel - 1) as nat, ends, st1, s);
                        lemma_prefix_trans(
                            st.segments,
                            st1.segments,
                            spec_run((fuel - 1) as nat, ends, st1, s).0.segments,
                        );
                    }
                }
            }
        },
        SpecStatement::PenUp | SpecStatement::PenDown | SpecStatement::Forward(_)
        | SpecStatement::Back(_) | SpecStatement::Left(_) | SpecStatement::Right(_) => {
            reveal(spec_motion);
            lemma_motion_keeps_drawing(st, s, ends);
        },
        SpecStatement::Turn(_) | SpecStatement::SetPenColor(_) | SpecStatement::SetHeading(_)
        | SpecStatement::SetX(_) | SpecStatement::SetY(_) => {
            reveal(spec_setting);
        },
        _ => {
            reveal(spec_other);
        },
    }
}

proof fn lemma_motion_keeps_drawing(st: TurtleState, s: SpecStatement, ends: Seq<EndPoint>)
    ensures
        st.segments.is_prefix_of(spec_motion(st, s, ends).0.segments),
        !st.pen_down && !(s is PenDown) ==> spec_motion(st, s, ends).0.segments == st.segments,
{
    reveal(spec_motion);
    assert(st.segments.is_prefix_of(st.segments)) by {
        assert(st.segments.subrange(0, st.segments.len() as int) =~= st.segments);
    }
    match s {
        SpecStatement::Forward(e) => {
            if let Ok(d) = spec_eval_number(st, e) {
                lemma_move_prefix(st, st.heading, d, ends);
            }
        },
        SpecStatement::Back(e) => {
            if let Ok(d) = spec_eval_number(st, e) {
                if d != i32::MIN {
                    lemma_move_prefix(st, st.heading, (-d) as i32, ends);
                }
            }
        },
        SpecStatement::Left(e) => {
            if let Ok(d) = spec_eval_number(st, e) {
                lemma_move_prefix(
                    st,
                    crate::logo_semantics::trunc_rem(st.heading - 90 + 360, 360) as i32,
                    d,
                    ends,
                );
            }
        },
        SpecStatement::Right(e) => {
            if let Ok(d) = spec_eval_number(st, e) {
                lemma_move_prefix(
                    st,
                    crate::logo_semantics::trunc_rem(st.heading + 90, 360) as i32,
                    d,
                    ends,
                );
            }
        },
        _ => {},
    }
}

/// Drawing is never undone by a list of statements either.
pub proof fn law_block_keeps_drawing(fuel: nat, ends: Seq<EndPoint>, st: TurtleState, b: Seq<SpecStatement>)
    ensures
        st.segments.is_prefix_of(spec_run_block(fuel, ends, st, b).0.segments),
    decreases fuel, b, 0int,
{
    if b.len() == 0 {
        assert(st.segments.subrange(0, st.segments.len() as int) =~= st.segments);
    } else {
        law_statement_keeps_drawing(fuel, ends, st, b[0]);
        let (st1, err) = spec_run(fuel, ends, st, b[0]);
        if err is None {
            law_block_keeps_drawing(fuel, ends, st1, b.subrange(1, b.len() as int));
            lemma_prefix_trans(
                st.segments,
                st1.segments,
                spec_run_block(fuel, ends, st1, b.subrange(1, b.len() as int)).0.segments,
            );
        }
    }
}

/// The statement holds no `PENDOWN`, at any depth.
pub open spec fn never_lowers_pen(s: SpecStatement) -> bool
    decreases s, 1int,
{
    match s {
        SpecStatement::PenDown => false,
        SpecStatement::IF(_, body) => block_never_lowers_pen(body),
        SpecStatement::WHILE(_, body) => block_never_lowers_pen(body),
        _ => true,
    }
}

/// No statement of the list holds a `PENDOWN`, at any depth.
pub open spec fn block_never_lowers_pen(b: Seq<SpecStatement>) -> bool
    decreases b, 0int,
{
    if b.len() == 0 {
        true
    } else {
        never_lowers_pen(b[0]) && block_never_lowers_pen(b.subrange(1, b.len() as int))
    }
}

/// With the pen up, a statement that holds no `PENDOWN` draws nothing and
/// leaves the pen up.
pub proof fn law_pen_up_draws_nothing(fuel: nat, ends: Seq<EndPoint>, st: TurtleState, s: SpecStatement)
    requires
        !st.pen_down,
        never_lowers_pen(s),
    ensures
        spec_run(fuel, ends, st, s).0.segments == st.segments,
        !spec_run(fuel, ends, st, s).0.pen_down,
    decreases fuel, s, 1int,
{
    match s {
        SpecStatement::IF(c, body) => {
            law_block_pen_up_draws_nothing(fuel, ends, st, body);
        },
        SpecStatement::WHILE(c, body) => {
            if let Ok(v) = spec_eval(st, c) {
                if fuel > 0 {
                    law_block_pen_up_draws_nothing(fuel, ends, st, body);
                    let (st1, err) = spec_run_block(fuel, ends, st, body);
                    if err is None {
                        law_pen_up_draws_nothing((fuel - 1) as nat, ends, st1, s);
                    }
                }
            }
        },
        SpecStatement::PenUp | SpecStatement::PenDown | SpecStatement::Forward(_)
        | SpecStatement::Back(_) | SpecStatement::Left(_) | SpecStatement::Right(_) => {
            reveal(spec_motion);
            lemma_motion_keeps_drawing(st, s, ends);
        },
        SpecStatement::Turn(_) | SpecStatement::SetPenColor(_) | SpecStatement::SetHeading(_)
        | SpecStatement::SetX(_) | SpecStatement::SetY(_) => {
            reveal(spec_setting);
        },
        _ => {
            reveal(spec_other);
        },
    }
}

/// With the pen up, statements that hold no `PENDOWN` draw nothing and
/// leave the pen up.
pub proof fn law_block_pen_up_draws_nothing(fuel: nat, ends: Seq<EndPoint>, st: TurtleState, b: Seq<SpecStatement>)
    requires
        !st.pen_down,
        block_never_lowers_pen(b),
    ensures
        spec_run_block(fuel, ends, st, b).0.segments == st.segments,
        !spec_run_block(fuel, ends, st, b).0.pen_down,
    decreases fuel, b, 0int,
{
    if b.len() > 0 {
        law_pen_up_draws_nothing(fuel, ends, st, b[0]);
        let (st1, err) = spec_run(fuel, ends, st, b[0]);
        if err is None {
            law_block_pen_up_draws_nothing(fuel, ends, st1, b.subrange(1, b.len() as int));
        }
    }
}

/// Only `MAKE` and `ADDASSIGN` change variables: moving, turning, the pen
/// and comments leave them as they were.
pub proof fn law_commands_keep_variables(fuel: nat, ends: Seq<EndPoint>, st: TurtleState, s: SpecStatement)
    requires
        !(s is MakeVariable || s is AddAssign || s is IF || s is WHILE),
    ensures
        spec_run(fuel, ends, st, s).0.variables == st.variables,
{
    reveal(spec_motion);
    reveal(spec_setting);
    reveal(spec_other);
}

/// Arithmetic on the text of numbers is arithmetic on the numbers: the sum
/// of two quoted numbers evaluates to the text of their sum when it fits,
/// and comparing them gives the text of the comparison.
pub proof fn law_sum_of_numbers(st: TurtleState, a: i32, b: i32)
    ensures
        ({
            let x = SpecExpr::Literal(spec_display_i32(a));
            let y = SpecExpr::Literal(spec_display_i32(b));
            &&& fits_i32(a + b) ==> spec_eval(st, SpecExpr::ADD(Box::new(x), Box::new(y)))
                == Ok::<Seq<char>, SpecError>(spec_display_i32((a + b) as i32))
            &&& !fits_i32(a + b) ==> spec_eval(st, SpecExpr::ADD(Box::new(x), Box::new(y)))
                == Err::<Seq<char>, SpecError>(SpecError::ArithmeticOverflow)
            &&& spec_eval(st, SpecExpr::LT(Box::new(x), Box::new(y))) == Ok::<
                Seq<char>,
                SpecError,
            >(spec_display_bool(a < b))
        }),
{
    law_display_parse_i32(a);
    law_display_parse_i32(b);
    let x = SpecExpr::Literal(spec_display_i32(a));
    let y = SpecExpr::Literal(spec_display_i32(b));
    assert(spec_eval(st, x) == Ok::<Seq<char>, SpecError>(spec_display_i32(a)));
    assert(spec_eval(st, y) == Ok::<Seq<char>, SpecError>(spec_display_i32(b)));
    assert(spec_int_operands(st, SpecExpr::ADD(Box::new(x), Box::new(y))) == Ok::<
        (i32, i32),
        SpecError,
    >((a, b)));
    assert(spec_int_operands(st, SpecExpr::LT(Box::new(x), Box::new(y))) == Ok::<
        (i32, i32),
        SpecError,
    >((a, b)));
}

/// `BACK d` is `FORWARD` by `-d`: given the same end point from the
/// drawing library, the same line is drawn and the turtle ends in the same
/// place, for every `d` whose negation fits in `i32`.
pub proof fn law_back_is_forward_negated(fuel: nat, ends: Seq<EndPoint>, st: TurtleState, d: i32)
    requires
        d != i32::MIN,
    ensures
        spec_run(fuel, ends, st, SpecStatement::Back(SpecExpr::Literal(spec_display_i32(d))))
            == spec_run(fuel, ends,
            st,
            SpecStatement::Forward(SpecExpr::Literal(spec_display_i32((-d) as i32))),
        ),
{
    reveal(spec_motion);
    law_display_parse_i32(d);
    law_display_parse_i32((-d) as i32);
}

/// `SETX a` then `XCOR` reads `|a|`; likewise `SETY` and `YCOR`, and
/// `SETHEADING` and `HEADING`.
pub proof fn law_set_then_query(fuel: nat, ends: Seq<EndPoint>, st: TurtleState, a: i32)
    requires
        a != i32::MIN,
    ensures
        ({
            let v = SpecExpr::Literal(spec_display_i32(a));
            let magnitude = (if a < 0 { -a } else { a as int }) as i32;
            let (sx, ex) = spec_run(fuel, ends, st, SpecStatement::SetX(v));
            let (sy, ey) = spec_run(fuel, ends, st, SpecStatement::SetY(v));
            let (sh, eh) = spec_run(fuel, ends, st, SpecStatement::SetHeading(v));
            &&& ex is None && ey is None && eh is None
            &&& spec_eval(sx, SpecExpr::ProgramProcedure(ProgramProcedure::XCOR)) == Ok::<
                Seq<char>,
                SpecError,
            >(spec_display_i32(magnitude))
            &&& spec_eval(sy, SpecExpr::ProgramProcedure(ProgramProcedure::YCOR)) == Ok::<
                Seq<char>,
                SpecError,
            >(spec_display_i32(magnitude))
            &&& spec_eval(sh, SpecExpr::ProgramProcedure(ProgramProcedure::HEADING)) == Ok::<
                Seq<char>,
                SpecError,
            >(spec_display_i32(magnitude))
        }),
{
    reveal(spec_setting);
    law_display_parse_i32(a);
}

/// `SETPENCOLOR c` then `COLOR` reads `c`, for every integer `c`.
pub proof fn law_pen_color_then_query(fuel: nat, ends: Seq<EndPoint>, st: TurtleState, c: i32)
    ensures
        ({
            let (after, err) = spec_run(fuel, ends,
                st,
                SpecStatement::SetPenColor(SpecExpr::Literal(spec_display_i32(c))),
            );
            &&& err is None
            &&& spec_eval(after, SpecExpr::ProgramProcedure(ProgramProcedure::COLOR)) == Ok::<
                Seq<char>,
                SpecError,
            >(spec_display_i32(c))
        }),
{
    reveal(spec_setting);
    law_display_parse_i32(c);
    assert((c as u32) as i32 == c) by (bit_vector);
}

/// A statement other than `IF` and `WHILE` that stops with an error
/// changes nothing: the turtle, its variables and its drawing are as they
/// were.
pub proof fn law_failed_step_changes_nothing(
    fuel: nat,
    ends: Seq<EndPoint>,
    st: TurtleState,
    s: SpecStatement,
)
    requires
        !(s is IF || s is WHILE),
        spec_run(fuel, ends, st, s).1 is Some,
    ensures
        spec_run(fuel, ends, st, s).0 == st,
{
    reveal(spec_motion);
    reveal(spec_setting);
    reveal(spec_other);
}

/// `IF c [body]` runs the whole body, in order, when the condition's value
/// counts as true, does nothing when it does not, and stops with the
/// condition's error if it has one.
pub proof fn law_if_runs_its_block(
    fuel: nat,
    ends: Seq<EndPoint>,
    st: TurtleState,
    c: SpecExpr,
    body: Seq<SpecStatement>,
)
    ensures
        match spec_eval(st, c) {
            Ok(v) => if is_true(v) {
                spec_run(fuel, ends, st, SpecStatement::IF(c, body)) == spec_run_block(
                    fuel,
                    ends,
                    st,
                    body,
                )
            } else {
                spec_run(fuel, ends, st, SpecStatement::IF(c, body)) == (st, None::<SpecError>)
            },
            Err(e) => spec_run(fuel, ends, st, SpecStatement::IF(c, body)) == (st, Some(e)),
        },
{
}

/// A list of statements runs its first statement, then, unless that
/// stopped with an error, the rest from where it left the turtle; the
/// empty list does nothing.
pub proof fn law_block_runs_in_order(
    fuel: nat,
    ends: Seq<EndPoint>,
    st: TurtleState,
    first: SpecStatement,
    rest: Seq<SpecStatement>,
)
    ensures
        spec_run_block(fuel, ends, st, Seq::empty()) == (st, None::<SpecError>),
        spec_run_block(fuel, ends, st, seq![first] + rest) == ({
            let (st1, err) = spec_run(fuel, ends, st, first);
            if err is Some {
                (st1, err)
            } else {
                spec_run_block(fuel, ends, st1, rest)
            }
        }),
{
    let b = seq![first] + rest;
    assert(b[0] == first);
    assert(b.subrange(1, b.len() as int) =~= rest);
}

/// `WHILE c [body]` with a true condition runs its body and then the loop
/// again (with one iteration fewer allowed), unless the body stopped with
/// an error; with a condition that is not true it does nothing.
pub proof fn law_while_repeats(
    fuel: nat,
    ends: Seq<EndPoint>,
    st: TurtleState,
    c: SpecExpr,
    body: Seq<SpecStatement>,
)
    ensures
        spec_eval(st, c) matches Ok(v) && !is_true(v) ==> spec_run(
            fuel,
            ends,
            st,
            SpecStatement::WHILE(c, body),
        ) == (st, None::<SpecError>),
        spec_eval(st, c) matches Ok(v) && is_true(v) && fuel > 0 ==> spec_run(
            fuel,
            ends,
            st,
            SpecStatement::WHILE(c, body),
        ) == ({
            let (st1, err) = spec_run_block(fuel, ends, st, body);
            if err is Some {
                (st1, err)
            } else {
                spec_run((fuel - 1) as nat, ends, st1, SpecStatement::WHILE(c, body))
            }
        }),
{
}

/// The direction of a sideways line from heading `h`: congruent to
/// `h + turn` modulo 360, of size below 360, and of the sign of
/// `h + turn + offset` (Rust's `%` keeps the dividend's sign).
pub open spec fn sideways_direction(direction: i32, h: i32, turn: int, offset: int) -> bool {
    &&& (direction - (h + turn)) % 360 == 0
    &&& -360 < direction < 360
    &&& h + turn + offset >= 0 ==> direction >= 0
    &&& h + turn + offset < 0 ==> direction <= 0
}

/// With the pen down in a palette colour, `RIGHT d` draws one line of
/// length `d` from the turtle at right angles to its heading `h`: along
/// `h + 90` degrees (taken modulo 360), without turning, and the turtle
/// goes to the end point the drawing library gives.
pub proof fn law_right_moves_across(fuel: nat, ends: Seq<EndPoint>, st: TurtleState, d: i32)
    requires
        st.pen_down,
        st.pen_color < 16,
        line_in_range(st.x, st.y, d),
        fits_i32(st.heading + 90),
    ensures
        ({
            let (after, err) = spec_run(
                fuel,
                ends,
                st,
                SpecStatement::Right(SpecExpr::Literal(spec_display_i32(d))),
            );
            let line = after.segments.last();
            &&& err is None
            &&& after.segments == st.segments.push(
                Segment { x: st.x, y: st.y, direction: line.direction, length: d, color: st.pen_color },
            )
            &&& sideways_direction(line.direction, st.heading, 90, 0)
            &&& after.heading == st.heading
            &&& (after.x, after.y) == ends[st.moves as int]
        }),
{
    reveal(spec_motion);
    law_display_parse_i32(d);
    lemma_remainder_360(st.heading + 90);
}

/// With the pen down in a palette colour, `LEFT d` draws one line of
/// length `d` from the turtle at right angles to its heading `h`: along
/// `h - 90` degrees (taken modulo 360, from `h + 270`), without turning,
/// and the turtle goes to the end point the drawing library gives.
pub proof fn law_left_moves_across(fuel: nat, ends: Seq<EndPoint>, st: TurtleState, d: i32)
    requires
        st.pen_down,
        st.pen_color < 16,
        line_in_range(st.x, st.y, d),
        fits_i32(st.heading - 90),
        fits_i32(st.heading + 270),
    ensures
        ({
            let (after, err) = spec_run(
                fuel,
                ends,
                st,
                SpecStatement::Left(SpecExpr::Literal(spec_display_i32(d))),
            );
            let line = after.segments.last();
            &&& err is None
            &&& after.segments == st.segments.push(
                Segment { x: st.x, y: st.y, direction: line.direction, length: d, color: st.pen_color },
            )
            &&& sideways_direction(line.direction, st.heading, -90, 360)
            &&& after.heading == st.heading
            &&& (after.x, after.y) == ends[st.moves as int]
        }),
{
    reveal(spec_motion);
    law_display_parse_i32(d);
    lemma_remainder_360(st.heading - 90 + 360);
    assert((st.heading - 90 + 360 - (st.heading - 90)) == 360);
    let r = crate::logo_semantics::trunc_rem(st.heading - 90 + 360, 360);
    assert((r - (st.heading + (-90))) % 360 == 0) by {
        lemma_mod_add_multiple_360(r - (st.heading - 90 + 360));
    }
}

proof fn lemma_mod_add_multiple_360(k: int)
    requires
        k % 360 == 0,
    ensures
        (k + 360) % 360 == 0,
{
    vstd::arithmetic::div_mod::lemma_mod_add_multiples_vanish(k, 360);
}

/// `ADDASSIGN :p amount` adds to the variable whose name `p` holds.
pub proof fn law_add_assign_through_variable(
    fuel: nat,
    ends: Seq<EndPoint>,
    st: TurtleState,
    pointer: Seq<char>,
    current: i32,
    amount: i32,
)
    requires
        st.variables.contains_key(pointer),
        st.variables.contains_key(st.variables[pointer]),
        spec_parse_i32(st.variables[st.variables[pointer]]) == Some(current),
        fits_i32(current + amount),
    ensures
        spec_run(
            fuel,
            ends,
            st,
            SpecStatement::AddAssign(
                SpecExpr::Variable(pointer),
                SpecExpr::Literal(spec_display_i32(amount)),
            ),
        ) == (
            TurtleState {
                variables: st.variables.insert(
                    st.variables[pointer],
                    spec_display_i32((current + amount) as i32),
                ),
                ..st
            },
            None::<SpecError>,
        ),
{
    reveal(spec_other);
    law_display_parse_i32(amount);
}

/// The errors of a move: a distance that is not a number stops with
/// `CannotConvertToNumber`, a pen colour outside the palette (pen down)
/// with `InvalidPenColor`, and a move beyond the drawing library's safe
/// range with `CoordinateOutOfRange`; in each case nothing changes.
pub proof fn law_move_errors(fuel: nat, ends: Seq<EndPoint>, st: TurtleState, word: Seq<char>, d: i32)
    ensures
        spec_parse_i32(word) is None ==> spec_run(
            fuel,
            ends,
            st,
            SpecStatement::Forward(SpecExpr::Literal(word)),
        ) == (st, Some(SpecError::CannotConvertToNumber)),
        st.pen_down && st.pen_color >= 16 ==> spec_run(
            fuel,
            ends,
            st,
            SpecStatement::Forward(SpecExpr::Literal(spec_display_i32(d))),
        ) == (st, Some(SpecError::InvalidPenColor(st.pen_color))),
        !(st.pen_down && st.pen_color >= 16) && !line_in_range(st.x, st.y, d) ==> spec_run(
            fuel,
            ends,
            st,
            SpecStatement::Forward(SpecExpr::Literal(spec_display_i32(d))),
        ) == (st, Some(SpecError::CoordinateOutOfRange)),
{
    reveal(spec_motion);
    law_display_parse_i32(d);
}

} // verus!
