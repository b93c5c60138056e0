//! What expressions evaluate to, stated over the numbers and truth values
//! their texts denote.

use vstd::prelude::*;
use crate::text::{spec_parse_i32, spec_parse_bool, spec_display_i32, spec_display_bool, law_display_parse_i32, law_display_parse_bool};
use crate::logo_syntax::{ProgramProcedure, SpecExpr};
use crate::drawing::magnitude;
use vstd::arithmetic::div_mod::{lemma_fundamental_div_mod, lemma_mod_bound, lemma_mod_multiples_basic};
use crate::logo_semantics::{TurtleState, SpecError, fits_i32, spec_eval, spec_int_operands, spec_bool_operands};

verus! {

/// The quoted text of a number.
pub open spec fn number(a: i32) -> SpecExpr {
    SpecExpr::Literal(spec_display_i32(a))
}

/// The quoted text of a truth value.
pub open spec fn truth(p: bool) -> SpecExpr {
    SpecExpr::Literal(spec_display_bool(p))
}

/// `(x, y)` as the operands of a binary expression.
pub open spec fn operands(x: SpecExpr, y: SpecExpr) -> (Box<SpecExpr>, Box<SpecExpr>) {
    (Box::new(x), Box::new(y))
}

/// The text of a number, as a value.
pub open spec fn number_value(n: int) -> Result<Seq<char>, SpecError> {
    Ok(spec_display_i32(n as i32))
}

/// The text of a truth value, as a value.
pub open spec fn truth_value(p: bool) -> Result<Seq<char>, SpecError> {
    Ok(spec_display_bool(p))
}

proof fn lemma_number_operands(st: TurtleState, a: i32, b: i32, e: SpecExpr)
    requires
        e == SpecExpr::ADD(Box::new(number(a)), Box::new(number(b))) || e == SpecExpr::SUB(
            Box::new(number(a)),
            Box::new(number(b)),
        ) || e == SpecExpr::MUL(Box::new(number(a)), Box::new(number(b))) || e == SpecExpr::DIV(
            Box::new(number(a)),
            Box::new(number(b)),
        ) || e == SpecExpr::EQ(Box::new(number(a)), Box::new(number(b))) || e == SpecExpr::LT(
            Box::new(number(a)),
            Box::new(number(b)),
        ) || e == SpecExpr::GT(Box::new(number(a)), Box::new(number(b))) || e == SpecExpr::NE(
            Box::new(number(a)),
            Box::new(number(b)),
        ),
    ensures
        spec_int_operands(st, e) == Ok::<(i32, i32), SpecError>((a, b)),
{
    law_display_parse_i32(a);
    law_display_parse_i32(b);
    assert(spec_eval(st, number(a)) == Ok::<Seq<char>, SpecError>(spec_display_i32(a)));
    assert(spec_eval(st, number(b)) == Ok::<Seq<char>, SpecError>(spec_display_i32(b)));
}

/// Comparing two quoted numbers gives the text of the comparison of the
/// numbers: `EQ` is `a = b`, `NE` is `a ≠ b`, `LT` is `a < b` and `GT` is
/// `a > b` (so `GT a a` is `false`).
pub proof fn law_comparisons(st: TurtleState, a: i32, b: i32)
    ensures
        spec_eval(st, SpecExpr::EQ(Box::new(number(a)), Box::new(number(b)))) == truth_value(a == b),
        spec_eval(st, SpecExpr::NE(Box::new(number(a)), Box::new(number(b)))) == truth_value(a != b),
        spec_eval(st, SpecExpr::LT(Box::new(number(a)), Box::new(number(b)))) == truth_value(a < b),
        spec_eval(st, SpecExpr::GT(Box::new(number(a)), Box::new(number(b)))) == truth_value(a > b),
{
    lemma_number_operands(st, a, b, SpecExpr::EQ(Box::new(number(a)), Box::new(number(b))));
    lemma_number_operands(st, a, b, SpecExpr::NE(Box::new(number(a)), Box::new(number(b))));
    lemma_number_operands(st, a, b, SpecExpr::LT(Box::new(number(a)), Box::new(number(b))));
    lemma_number_operands(st, a, b, SpecExpr::GT(Box::new(number(a)), Box::new(number(b))));
}

/// Adding, subtracting and multiplying two quoted numbers gives the text
/// of the exact result when it fits in `i32`, and an overflow otherwise.
pub proof fn law_ring_operations(st: TurtleState, a: i32, b: i32)
    ensures
        spec_eval(st, SpecExpr::ADD(Box::new(number(a)), Box::new(number(b)))) == if fits_i32(
            a + b,
        ) {
            number_value(a + b)
        } else {
            Err(SpecError::ArithmeticOverflow)
        },
        spec_eval(st, SpecExpr::SUB(Box::new(number(a)), Box::new(number(b)))) == if fits_i32(
            a - b,
        ) {
            number_value(a - b)
        } else {
            Err(SpecError::ArithmeticOverflow)
        },
        spec_eval(st, SpecExpr::MUL(Box::new(number(a)), Box::new(number(b)))) == if fits_i32(
            a * b,
        ) {
            number_value(a * b)
        } else {
            Err(SpecError::ArithmeticOverflow)
        },
{
    lemma_number_operands(st, a, b, SpecExpr::ADD(Box::new(number(a)), Box::new(number(b))));
    lemma_number_operands(st, a, b, SpecExpr::SUB(Box::new(number(a)), Box::new(number(b))));
    lemma_number_operands(st, a, b, SpecExpr::MUL(Box::new(number(a)), Box::new(number(b))));
}

/// Dividing two quoted numbers: by zero is an error; `i32::MIN / -1`
/// overflows; otherwise the result is the text of the quotient `q` that
/// rounds toward zero: `a = q * b + r` with `|r| < |b|` and `r` zero or of
/// the sign of `a`.
pub proof fn law_division(st: TurtleState, a: i32, b: i32)
    ensures
        b == 0 ==> spec_eval(st, SpecExpr::DIV(Box::new(number(a)), Box::new(number(b)))) == Err::<
            Seq<char>,
            SpecError,
        >(SpecError::DivisionByZero),
        a == i32::MIN && b == -1 ==> spec_eval(
            st,
            SpecExpr::DIV(Box::new(number(a)), Box::new(number(b))),
        ) == Err::<Seq<char>, SpecError>(SpecError::ArithmeticOverflow),
        b != 0 && !(a == i32::MIN && b == -1) ==> exists|q: i32|
            {
                let r = a - q * b;
                &&& spec_eval(st, SpecExpr::DIV(Box::new(number(a)), Box::new(number(b))))
                    == #[trigger] number_value(q as int)
                &&& magnitude(r) < magnitude(b as int)
                &&& (r == 0 || (r > 0) == (a > 0))
            },
{
    let e = SpecExpr::DIV(Box::new(number(a)), Box::new(number(b)));
    lemma_number_operands(st, a, b, e);
    if b != 0 && !(a == i32::MIN && b == -1) {
        let q = crate::logo_semantics::trunc_div(a as int, b as int);
        lemma_trunc_div(a as int, b as int);
        assert(i32::MIN <= q <= i32::MAX) by (nonlinear_arith)
            requires
                q * b + (a - q * b) == a,
                b != 0,
                i32::MIN <= a <= i32::MAX,
                i32::MIN <= b <= i32::MAX,
                !(a == i32::MIN && b == -1),
                magnitude(a - q * b) < magnitude(b as int),
                (a - q * b == 0 || (a - q * b > 0) == (a > 0)),
        ;
        let qi = q as i32;
        assert(spec_eval(st, e) == number_value(qi as int));
    }
}

proof fn lemma_trunc_div(a: int, b: int)
    requires
        b != 0,
    ensures
        ({
            let q = crate::logo_semantics::trunc_div(a, b);
            let r = a - q * b;
            &&& magnitude(r) < magnitude(b)
            &&& (r == 0 || (r > 0) == (a > 0))
        }),
{
    let n = magnitude(a);
    let m = magnitude(b);
    lemma_fundamental_div_mod(n, m);
    lemma_mod_bound(n, m);
    let q0 = n / m;
    let r0 = n % m;
    assert(n == 0 ==> r0 == 0) by (nonlinear_arith)
        requires
            n == m * q0 + r0,
            0 <= r0 < m,
    ;
    let q = crate::logo_semantics::trunc_div(a, b);
    if a >= 0 {
        if b > 0 {
            assert(q * b == m * q0) by (nonlinear_arith)
                requires q == q0, b == m;
        } else {
            assert(q * b == m * q0) by (nonlinear_arith)
                requires q == -q0, b == -m;
        }
        assert(a - q * b == r0);
    } else {
        if b > 0 {
            assert(q * b == -(m * q0)) by (nonlinear_arith)
                requires q == -q0, b == m;
        } else {
            assert(q * b == -(m * q0)) by (nonlinear_arith)
                requires q == q0, b == -m;
        }
        assert(a - q * b == -r0);
    }
}

/// `AND` and `OR` of two quoted truth values give the text of the
/// conjunction and the disjunction.
pub proof fn law_logic(st: TurtleState, p: bool, q: bool)
    ensures
        spec_eval(st, SpecExpr::AND(Box::new(truth(p)), Box::new(truth(q)))) == truth_value(p && q),
        spec_eval(st, SpecExpr::OR(Box::new(truth(p)), Box::new(truth(q)))) == truth_value(p || q),
{
    law_display_parse_bool(p);
    law_display_parse_bool(q);
    assert(spec_eval(st, truth(p)) == truth_value(p));
    assert(spec_eval(st, truth(q)) == truth_value(q));
    assert(spec_bool_operands(st, SpecExpr::AND(Box::new(truth(p)), Box::new(truth(q))))
        == Ok::<(bool, bool), SpecError>((p, q)));
    assert(spec_bool_operands(st, SpecExpr::OR(Box::new(truth(p)), Box::new(truth(q))))
        == Ok::<(bool, bool), SpecError>((p, q)));
}

/// The turtle's queries give the text of its position, heading and pen
/// colour.
pub proof fn law_queries(st: TurtleState)
    ensures
        spec_eval(st, SpecExpr::ProgramProcedure(ProgramProcedure::XCOR)) == number_value(st.x as int),
        spec_eval(st, SpecExpr::ProgramProcedure(ProgramProcedure::YCOR)) == number_value(st.y as int),
        spec_eval(st, SpecExpr::ProgramProcedure(ProgramProcedure::HEADING)) == number_value(
            st.heading as int,
        ),
        spec_eval(st, SpecExpr::ProgramProcedure(ProgramProcedure::COLOR)) == number_value(
            (st.pen_color as i32) as int,
        ),
{
}

/// The remainder of `a` by 360 that Rust's `%` gives: congruent to `a`
/// modulo 360, of size below 360, and of the sign of `a`.
pub proof fn lemma_remainder_360(a: int)
    ensures
        ({
            let r = crate::logo_semantics::trunc_rem(a, 360);
            &&& (r - a) % 360 == 0
            &&& -360 < r < 360
            &&& a >= 0 ==> r >= 0
            &&& a < 0 ==> r <= 0
        }),
{
    lemma_trunc_div(a, 360);
    let q = crate::logo_semantics::trunc_div(a, 360);
    lemma_mod_multiples_basic(-q, 360);
    assert(crate::logo_semantics::trunc_rem(a, 360) - a == (-q) * 360) by (nonlinear_arith)
        requires crate::logo_semantics::trunc_rem(a, 360) == a - 360 * q;
}

/// A quoted word evaluates to itself; a variable to its value, or to an
/// error naming it when it has none; a procedure call is not evaluated.
pub proof fn law_words_and_variables(st: TurtleState, word: Seq<char>, name: Seq<char>, args: Seq<SpecExpr>)
    ensures
        spec_eval(st, SpecExpr::Literal(word)) == Ok::<Seq<char>, SpecError>(word),
        st.variables.contains_key(name) ==> spec_eval(st, SpecExpr::Variable(name)) == Ok::<
            Seq<char>,
            SpecError,
        >(st.variables[name]),
        !st.variables.contains_key(name) ==> spec_eval(st, SpecExpr::Variable(name)) == Err::<
            Seq<char>,
            SpecError,
        >(SpecError::UndefinedVariable(name)),
        spec_eval(st, SpecExpr::ProcedureCall(name, args)) == Err::<Seq<char>, SpecError>(
            SpecError::UnimplementedExpression(SpecExpr::ProcedureCall(name, args)),
        ),
{
}

/// Arithmetic and comparison on a word that is not a number stop with
/// `CannotConvertToInteger`; `AND` and `OR` on a word that is not `true`
/// or `false` stop with `CannotConvertToBoolean`.
pub proof fn law_operands_must_convert(st: TurtleState, word: Seq<char>, a: i32, p: bool)
    ensures
        spec_parse_i32(word) is None ==> spec_eval(
            st,
            SpecExpr::GT(Box::new(SpecExpr::Literal(word)), Box::new(number(a))),
        ) == Err::<Seq<char>, SpecError>(SpecError::CannotConvertToInteger),
        spec_parse_i32(word) is None ==> spec_eval(
            st,
            SpecExpr::ADD(Box::new(number(a)), Box::new(SpecExpr::Literal(word))),
        ) == Err::<Seq<char>, SpecError>(SpecError::CannotConvertToInteger),
        spec_parse_bool(word) is None ==> spec_eval(
            st,
            SpecExpr::AND(Box::new(SpecExpr::Literal(word)), Box::new(truth(p))),
        ) == Err::<Seq<char>, SpecError>(SpecError::CannotConvertToBoolean),
        spec_parse_bool(word) is None ==> spec_eval(
            st,
            SpecExpr::OR(Box::new(truth(p)), Box::new(SpecExpr::Literal(word))),
        ) == Err::<Seq<char>, SpecError>(SpecError::CannotConvertToBoolean),
{
    law_display_parse_i32(a);
    law_display_parse_bool(p);
    let w = SpecExpr::Literal(word);
    assert(spec_eval(st, w) == Ok::<Seq<char>, SpecError>(word));
    assert(spec_eval(st, number(a)) == Ok::<Seq<char>, SpecError>(spec_display_i32(a)));
    assert(spec_eval(st, truth(p)) == truth_value(p));
    if spec_parse_i32(word) is None {
        assert(spec_int_operands(st, SpecExpr::GT(Box::new(w), Box::new(number(a)))) == Err::<
            (i32, i32),
            SpecError,
        >(SpecError::CannotConvertToInteger));
        assert(spec_int_operands(st, SpecExpr::ADD(Box::new(number(a)), Box::new(w))) == Err::<
            (i32, i32),
            SpecError,
        >(SpecError::CannotConvertToInteger));
    }
    if spec_parse_bool(word) is None {
        assert(spec_bool_operands(st, SpecExpr::AND(Box::new(w), Box::new(truth(p)))) == Err::<
            (bool, bool),
            SpecError,
        >(SpecError::CannotConvertToBoolean));
        assert(spec_bool_operands(st, SpecExpr::OR(Box::new(truth(p)), Box::new(w))) == Err::<
            (bool, bool),
            SpecError,
        >(SpecError::CannotConvertToBoolean));
    }
}

} // verus!
