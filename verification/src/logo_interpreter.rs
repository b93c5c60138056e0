//! The turtle-graphics interpreter: runs a parsed program and draws the
//! lines it made onto an `unsvg` image. Its contracts equate each step
//! with [`crate::logo_semantics`], for the end points the drawing library
//! gave the moves.

use vstd::prelude::*;
use unsvg::Image;
use crate::text::{
    parse_i32, parse_bool, display_i32, display_bool, chars_of, string_from_chars, to_uppercase,
    spec_parse_i32, spec_display_i32, spec_parse_bool, spec_display_bool, uppercase_of,
};
use crate::logo_syntax::{
    Expr, Statement, Program, ProgramProcedure, SpecExpr, SpecStatement, statements_view,
    lemma_statements_view,
};
use crate::logo_semantics::{
    Segment, TurtleState, SpecError, trunc_div, trunc_rem, fits_i32, true_text, is_true,
    arithmetic, spec_eval, spec_int_operands, spec_bool_operands, spec_eval_number, spec_move,
    spec_add_assign, spec_run, spec_run_block, loop_fuel, spec_motion, spec_setting, spec_other,
    extends, lemma_run_frame, lemma_run_block_frame,
};
use crate::drawing::{
    EndPoint, ImageLine, line_in_range, exact_in_f32, image_lines, image_size, check_line_in_range,
    get_end_coordinates, new_image, draw_simple_line,
};

verus! {

/// Why running a program stopped.
#[derive(Debug, PartialEq)]
pub enum InterpretError {
    /// A value used as a distance, angle or colour is not an integer.
    CannotConvertToNumber,
    /// The variable named, or the amount added to it, is not an integer.
    CannotConvertNameToNumber(String),
    /// No variable has this name.
    UndefinedVariable(String),
    /// `ADDASSIGN` names its variable with something other than a
    /// variable or a quoted word.
    InvalidVariableName(Expr),
    /// An operand of a comparison or of arithmetic is not an integer.
    CannotConvertToInteger,
    /// An operand of `AND` or `OR` is not `true` or `false`.
    CannotConvertToBoolean,
    /// A statement that is not run (procedure definitions).
    UnimplementedStatement(Statement),
    /// An expression that is not evaluated (procedure calls).
    UnimplementedExpression(Expr),
    /// Integer arithmetic outside `i32`.
    ArithmeticOverflow,
    /// Division by zero.
    DivisionByZero,
    /// Drawing with a pen colour outside the 16-colour palette.
    InvalidPenColor(u32),
    /// A move too far for the drawing library's coordinates.
    CoordinateOutOfRange,
    /// A `WHILE` loop ran more times than the run allows.
    LoopLimit,
}

impl View for InterpretError {
    type V = SpecError;

    open spec fn view(&self) -> SpecError {
        match self {
            InterpretError::CannotConvertToNumber => SpecError::CannotConvertToNumber,
            InterpretError::CannotConvertNameToNumber(s) => SpecError::CannotConvertNameToNumber(
                s@,
            ),
            InterpretError::UndefinedVariable(s) => SpecError::UndefinedVariable(s@),
            InterpretError::InvalidVariableName(e) => SpecError::InvalidVariableName(e@),
            InterpretError::CannotConvertToInteger => SpecError::CannotConvertToInteger,
            InterpretError::CannotConvertToBoolean => SpecError::CannotConvertToBoolean,
            InterpretError::UnimplementedStatement(s) => SpecError::UnimplementedStatement(s@),
            InterpretError::UnimplementedExpression(e) => SpecError::UnimplementedExpression(e@),
            InterpretError::ArithmeticOverflow => SpecError::ArithmeticOverflow,
            InterpretError::DivisionByZero => SpecError::DivisionByZero,
            InterpretError::InvalidPenColor(c) => SpecError::InvalidPenColor(*c),
            InterpretError::CoordinateOutOfRange => SpecError::CoordinateOutOfRange,
            InterpretError::LoopLimit => SpecError::LoopLimit,
        }
    }
}

/// The value, or the error, of an evaluation.
pub open spec fn value_view(r: Result<String, InterpretError>) -> Result<Seq<char>, SpecError> {
    match r {
        Ok(s) => Ok(s@),
        Err(e) => Err(e@),
    }
}

/// The error of a run, if any.
pub open spec fn error_view<T>(r: Result<T, InterpretError>) -> Option<SpecError> {
    match r {
        Ok(_) => None,
        Err(e) => Some(e@),
    }
}

/// The variables as a map from name to value, when no name occurs twice.
pub open spec fn variables_view(v: Seq<(String, String)>) -> Map<Seq<char>, Seq<char>> {
    Map::new(
        |k: Seq<char>| exists|i: int| 0 <= i < v.len() && (#[trigger] v[i]).0@ == k,
        |k: Seq<char>| v[choose|i: int| 0 <= i < v.len() && (#[trigger] v[i]).0@ == k].1@,
    )
}

/// No variable name occurs twice.
pub open spec fn distinct_names(v: Seq<(String, String)>) -> bool {
    forall|i: int, j: int|
        0 <= i < v.len() && 0 <= j < v.len() && i != j ==> (#[trigger] v[i]).0@ != (
        #[trigger] v[j]).0@
}

proof fn lemma_variables_at(v: Seq<(String, String)>, i: int)
    requires
        distinct_names(v),
        0 <= i < v.len(),
    ensures
        variables_view(v).contains_key(v[i].0@),
        variables_view(v)[v[i].0@] == v[i].1@,
{
    let k = v[i].0@;
    assert(exists|j: int| 0 <= j < v.len() && (#[trigger] v[j]).0@ == k);
    let j = choose|j: int| 0 <= j < v.len() && (#[trigger] v[j]).0@ == k;
    assert(j == i);
}

proof fn lemma_variables_absent(v: Seq<(String, String)>, k: Seq<char>)
    requires
        forall|i: int| 0 <= i < v.len() ==> (#[trigger] v[i]).0@ != k,
    ensures
        !variables_view(v).contains_key(k),
{
}

proof fn lemma_variables_update(v: Seq<(String, String)>, i: int, entry: (String, String))
    requires
        distinct_names(v),
        0 <= i < v.len(),
        entry.0@ == v[i].0@,
    ensures
        distinct_names(v.update(i, entry)),
        variables_view(v.update(i, entry)) == variables_view(v).insert(entry.0@, entry.1@),
{
    let w = v.update(i, entry);
    assert(distinct_names(w)) by {
        assert forall|a: int, b: int|
            0 <= a < w.len() && 0 <= b < w.len() && a != b implies (#[trigger] w[a]).0@ != (
            #[trigger] w[b]).0@ by {
            assert(v[a].0@ != v[b].0@);
        }
    }
    assert forall|k: Seq<char>| #[trigger]
        variables_view(w).contains_key(k) == variables_view(v).insert(
            entry.0@,
            entry.1@,
        ).contains_key(k) by {
        if variables_view(v).contains_key(k) {
            let j = choose|j: int| 0 <= j < v.len() && (#[trigger] v[j]).0@ == k;
            assert(w[j].0@ == k);
        }
        if variables_view(w).contains_key(k) {
            let j = choose|j: int| 0 <= j < w.len() && (#[trigger] w[j]).0@ == k;
            assert(v[j].0@ == k);
        }
    }
    assert forall|k: Seq<char>| #[trigger] variables_view(w).contains_key(k) implies variables_view(
        w,
    )[k] == variables_view(v).insert(entry.0@, entry.1@)[k] by {
        let j = choose|j: int| 0 <= j < w.len() && (#[trigger] w[j]).0@ == k;
        lemma_variables_at(w, j);
        if j != i {
            lemma_variables_at(v, j);
        }
    }
    assert(variables_view(w) =~= variables_view(v).insert(entry.0@, entry.1@));
}

proof fn lemma_variables_push(v: Seq<(String, String)>, entry: (String, String))
    requires
        distinct_names(v),
        !variables_view(v).contains_key(entry.0@),
    ensures
        distinct_names(v.push(entry)),
        variables_view(v.push(entry)) == variables_view(v).insert(entry.0@, entry.1@),
{
    let w = v.push(entry);
    assert forall|i: int| 0 <= i < v.len() implies (#[trigger] v[i]).0@ != entry.0@ by {
        if v[i].0@ == entry.0@ {
            lemma_variables_at(v, i);
        }
    }
    assert(distinct_names(w)) by {
        assert forall|a: int, b: int|
            0 <= a < w.len() && 0 <= b < w.len() && a != b implies (#[trigger] w[a]).0@ != (
            #[trigger] w[b]).0@ by {
            if a < v.len() && b < v.len() {
                assert(v[a].0@ != v[b].0@);
            } else if a < v.len() {
                assert(v[a].0@ != entry.0@);
            } else {
                assert(v[b].0@ != entry.0@);
            }
        }
    }
    assert forall|k: Seq<char>| #[trigger]
        variables_view(w).contains_key(k) == variables_view(v).insert(
            entry.0@,
            entry.1@,
        ).contains_key(k) by {
        if variables_view(v).contains_key(k) {
            let j = choose|j: int| 0 <= j < v.len() && (#[trigger] v[j]).0@ == k;
            assert(w[j].0@ == k);
        }
        if k == entry.0@ {
            assert(w[v.len() as int].0@ == k);
        }
        if variables_view(w).contains_key(k) {
            let j = choose|j: int| 0 <= j < w.len() && (#[trigger] w[j]).0@ == k;
            if j < v.len() {
                assert(v[j].0@ == k);
            }
        }
    }
    assert forall|k: Seq<char>| #[trigger] variables_view(w).contains_key(k) implies variables_view(
        w,
    )[k] == variables_view(v).insert(entry.0@, entry.1@)[k] by {
        let j = choose|j: int| 0 <= j < w.len() && (#[trigger] w[j]).0@ == k;
        lemma_variables_at(w, j);
        if j < v.len() {
            lemma_variables_at(v, j);
        }
    }
    assert(variables_view(w) =~= variables_view(v).insert(entry.0@, entry.1@));
}

/// The view of a `WHILE` statement.
pub open spec fn statement_view_of_while(c: &Expr, body: &Vec<Statement>) -> SpecStatement {
    SpecStatement::WHILE(c@, statements_view(body@))
}

/// The image's lines show the segments: one line per segment, in order,
/// in the segment's colour, from the segment's start wherever `f32` holds
/// its coordinates exactly.
pub open spec fn shows_segments(lines: Seq<ImageLine>, segments: Seq<Segment>) -> bool {
    &&& lines.len() == segments.len()
    &&& forall|k: int|
        0 <= k < lines.len() ==> {
            &&& (#[trigger] lines[k]).4 == segments[k].color
            &&& exact_in_f32(segments[k].x) ==> lines[k].0 == segments[k].x
            &&& exact_in_f32(segments[k].y) ==> lines[k].1 == segments[k].y
        }
}

/// A segment the image library can draw: a palette colour, and a length
/// whose end it computes safely.
pub open spec fn drawable(seg: Segment) -> bool {
    seg.color < 16 && line_in_range(seg.x, seg.y, seg.length)
}

/// A Logo interpreter: the turtle, its variables, the lines it drew, and
/// the size of the image they are drawn on.
pub struct Interpreter {
    x: i32,
    y: i32,
    heading: i32,
    pen_down: bool,
    pen_color: u32,
    variables: Vec<(String, String)>,
    segments: Vec<Segment>,
    width: u32,
    height: u32,
    ends: Ghost<Seq<EndPoint>>,
}

impl View for Interpreter {
    type V = TurtleState;

    closed spec fn view(&self) -> TurtleState {
        TurtleState {
            x: self.x,
            y: self.y,
            heading: self.heading,
            pen_down: self.pen_down,
            pen_color: self.pen_color,
            variables: variables_view(self.variables@),
            segments: self.segments@,
            moves: self.ends@.len(),
            width: self.width,
            height: self.height,
        }
    }
}

/// Division truncating toward zero; `b` is not zero and the quotient fits.
fn divide(a: i32, b: i32) -> (r: i32)
    requires
        b != 0,
        !(a == i32::MIN && b == -1),
    ensures
        r == trunc_div(a as int, b as int),
{
    let x = a as i64;
    let y = b as i64;
    let q: i64 = if x >= 0 {
        if y > 0 {
            x / y
        } else {
            -(x / (-y))
        }
    } else {
        if y > 0 {
            -((-x) / y)
        } else {
            (-x) / (-y)
        }
    };
    assert(-2147483648 <= q <= 2147483647) by (nonlinear_arith)
        requires
            q == trunc_div(x as int, y as int),
            x >= -2147483648,
            x <= 2147483647,
            y != 0,
            y >= -2147483648,
            y <= 2147483647,
            !(x == -2147483648 && y == -1),
    ;
    q as i32
}

/// The text of a number, as a `String`.
fn number_text(n: i32) -> (r: String)
    ensures
        r@ == spec_display_i32(n),
{
    let cs = display_i32(n);
    string_from_chars(cs.as_slice())
}

/// The text of a truth value, as a `String`.
fn bool_text(b: bool) -> (r: String)
    ensures
        r@ == spec_display_bool(b),
{
    let cs = display_bool(b);
    string_from_chars(cs.as_slice())
}

/// A value read as an `i32`.
fn number_of(v: &String) -> (r: Option<i32>)
    ensures
        r == spec_parse_i32(v@),
{
    let cs = chars_of(v.as_str());
    parse_i32(cs.as_slice())
}

/// A value read as a `bool`.
fn bool_of(v: &String) -> (r: Option<bool>)
    ensures
        r == spec_parse_bool(v@),
{
    let cs = chars_of(v.as_str());
    parse_bool(cs.as_slice())
}

/// Whether a value counts as true: its upper-casing is `TRUE`.
fn value_is_true(v: &String) -> (b: bool)
    ensures
        b == is_true(v@),
{
    let u = to_uppercase(v.as_str());
    let cs = chars_of(u.as_str());
    let b = cs.len() == 4 && cs[0] == 'T' && cs[1] == 'R' && cs[2] == 'U' && cs[3] == 'E';
    proof {
        if b {
            assert(cs@ =~= true_text());
        }
        if uppercase_of(v@) == true_text() {
            assert(cs@[0] == 'T' && cs@[1] == 'R' && cs@[2] == 'U' && cs@[3] == 'E');
        }
    }
    b
}

/// Integer arithmetic and comparison on read operands.
fn arithmetic_exec(e: &Expr, a: i32, b: i32) -> (r: Result<String, InterpretError>)
    ensures
        value_view(r) == arithmetic(e@, a, b),
{
    let x = a as i64;
    let y = b as i64;
    match e {
        Expr::ADD(..) => if -2147483648 <= x + y && x + y <= 2147483647 {
            Ok(number_text((x + y) as i32))
        } else {
            Err(InterpretError::ArithmeticOverflow)
        },
        Expr::SUB(..) => if -2147483648 <= x - y && x - y <= 2147483647 {
            Ok(number_text((x - y) as i32))
        } else {
            Err(InterpretError::ArithmeticOverflow)
        },
        Expr::MUL(..) => {
            assert(-4611686018427387904 <= x * y <= 4611686018427387904) by (nonlinear_arith)
                requires
                    -2147483648 <= x <= 2147483647,
                    -2147483648 <= y <= 2147483647,
            ;
            if -2147483648 <= x * y && x * y <= 2147483647 {
                Ok(number_text((x * y) as i32))
            } else {
                Err(InterpretError::ArithmeticOverflow)
            }
        },
        Expr::DIV(..) => if b == 0 {
            Err(InterpretError::DivisionByZero)
        } else if a == i32::MIN && b == -1 {
            Err(InterpretError::ArithmeticOverflow)
        } else {
            Ok(number_text(divide(a, b)))
        },
        Expr::EQ(..) => Ok(bool_text(a == b)),
        Expr::LT(..) => Ok(bool_text(a < b)),
        Expr::GT(..) => Ok(bool_text(a > b)),
        _ => Ok(bool_text(a != b)),
    }
}

impl Interpreter {
    /// The names of the variables are distinct, the image has a size, and
    /// every segment can be drawn.
    pub closed spec fn wf(&self) -> bool {
        &&& distinct_names(self.variables@)
        &&& self.width > 0
        &&& self.height > 0
        &&& forall|k: int| 0 <= k < self.segments@.len() ==> drawable(#[trigger] self.segments@[k])
    }

    /// The end points the drawing library has given the turtle's moves, in
    /// order.
    pub closed spec fn end_points(&self) -> Seq<EndPoint> {
        self.ends@
    }

    /// A new interpreter for a `width` by `height` image (each taken as a
    /// `u32`): the turtle in the middle (halves rounded toward zero),
    /// heading up (0 degrees), pen down in colour 7, no variables, no moves
    /// and nothing drawn. The image library panics on a zero width or
    /// height.
    pub fn new(width: i32, height: i32) -> (r: Self)
        requires
            width != 0,
            height != 0,
        ensures
            r.wf(),
            r.end_points() == Seq::<EndPoint>::empty(),
            r@ == (TurtleState {
                x: trunc_div(width as int, 2) as i32,
                y: trunc_div(height as int, 2) as i32,
                heading: 0,
                pen_down: true,
                pen_color: 7,
                variables: Map::empty(),
                segments: Seq::empty(),
                moves: 0,
                width: width as u32,
                height: height as u32,
            }),
    {
        assert(width != 0 ==> width as u32 > 0) by (bit_vector);
        assert(height != 0 ==> height as u32 > 0) by (bit_vector);
        let r = Interpreter {
            x: width / 2,
            y: height / 2,
            heading: 0,
            pen_down: true,
            pen_color: 7,
            variables: Vec::new(),
            segments: Vec::new(),
            width: width as u32,
            height: height as u32,
            ends: Ghost(Seq::empty()),
        };
        assert(variables_view(r.variables@) =~= Map::empty());
        r
    }

    /// The index of the variable named `name`, if there is one.
    fn find_variable(&self, name: &String) -> (r: Option<usize>)
        requires
            self.wf(),
        ensures
            match r {
                Some(i) => i < self.variables@.len() && self.variables@[i as int].0@ == name@
                    && self@.variables.contains_key(name@) && self@.variables[name@]
                    == self.variables@[i as int].1@,
                None => !self@.variables.contains_key(name@),
            },
    {
        let mut i: usize = 0;
        while i < self.variables.len()
            invariant
                0 <= i <= self.variables@.len(),
                distinct_names(self.variables@),
                forall|j: int| 0 <= j < i ==> (#[trigger] self.variables@[j]).0@ != name@,
            decreases self.variables@.len() - i,
        {
            if self.variables[i].0 == *name {
                proof {
                    lemma_variables_at(self.variables@, i as int);
                }
                return Some(i);
            }
            i = i + 1;
        }
        proof {
            lemma_variables_absent(self.variables@, name@);
        }
        None
    }

    /// Gives variable `name` the value `value`.
    fn set_variable(&mut self, name: String, value: String)
        requires
            old(self).wf(),
        ensures
            final(self).wf(),
            final(self).ends@ == old(self).ends@,
            final(self)@ == (TurtleState {
                variables: old(self)@.variables.insert(name@, value@),
                ..old(self)@
            }),
    {
        match self.find_variable(&name) {
            Some(i) => {
                proof {
                    lemma_variables_update(self.variables@, i as int, (name, value));
                }
                self.variables.set(i, (name, value));
            },
            None => {
                proof {
                    lemma_variables_push(self.variables@, (name, value));
                }
                self.variables.push((name, value));
            },
        }
    }

    /// Evaluates an expression.
    fn evaluate_expr(&self, e: &Expr) -> (r: Result<String, InterpretError>)
        requires
            self.wf(),
        ensures
            value_view(r) == spec_eval(self@, e@),
        decreases e, 1int,
    {
        match e {
            Expr::Literal(s) => Ok(s.clone()),
            Expr::Variable(name) => match self.find_variable(name) {
                Some(i) => Ok(self.variables[i].1.clone()),
                None => Err(InterpretError::UndefinedVariable(name.clone())),
            },
            Expr::ProgramProcedure(p) => {
                let v = match p {
                    ProgramProcedure::XCOR => self.x,
                    ProgramProcedure::YCOR => self.y,
                    ProgramProcedure::HEADING => self.heading,
                    ProgramProcedure::COLOR => self.pen_color as i32,
                };
                Ok(number_text(v))
            },
            Expr::ProcedureCall(..) => Err(InterpretError::UnimplementedExpression(e.deep_copy())),
            Expr::AND(..) => match self.bool_operands(e) {
                Ok((a, b)) => Ok(bool_text(a && b)),
                Err(err) => Err(err),
            },
            Expr::OR(..) => match self.bool_operands(e) {
                Ok((a, b)) => Ok(bool_text(a || b)),
                Err(err) => Err(err),
            },
            _ => match self.int_operands(e) {
                Ok((a, b)) => arithmetic_exec(e, a, b),
                Err(err) => Err(err),
            },
        }
    }

    /// The operands of an integer operation, read as integers.
    fn int_operands(&self, e: &Expr) -> (r: Result<(i32, i32), InterpretError>)
        requires
            self.wf(),
        ensures
            match r {
                Ok(p) => spec_int_operands(self@, e@) == Ok::<(i32, i32), SpecError>(p),
                Err(err) => spec_int_operands(self@, e@) == Err::<(i32, i32), SpecError>(err@),
            },
        decreases e, 0int,
    {
        match e {
            Expr::ADD(a, b) | Expr::SUB(a, b) | Expr::MUL(a, b) | Expr::DIV(a, b) | Expr::EQ(a, b)
            | Expr::LT(a, b) | Expr::GT(a, b) | Expr::NE(a, b) => {
                let va = self.evaluate_expr(a)?;
                let x = match number_of(&va) {
                    Some(x) => x,
                    None => {
                        return Err(InterpretError::CannotConvertToInteger);
                    },
                };
                let vb = self.evaluate_expr(b)?;
                let y = match number_of(&vb) {
                    Some(y) => y,
                    None => {
                        return Err(InterpretError::CannotConvertToInteger);
                    },
                };
                Ok((x, y))
            },
            _ => Err(InterpretError::CannotConvertToInteger),
        }
    }

    /// The operands of `AND` or `OR`, read as truth values.
    fn bool_operands(&self, e: &Expr) -> (r: Result<(bool, bool), InterpretError>)
        requires
            self.wf(),
        ensures
            match r {
                Ok(p) => spec_bool_operands(self@, e@) == Ok::<(bool, bool), SpecError>(p),
                Err(err) => spec_bool_operands(self@, e@) == Err::<(bool, bool), SpecError>(err@),
            },
        decreases e, 0int,
    {
        match e {
            Expr::AND(a, b) | Expr::OR(a, b) => {
                let va = self.evaluate_expr(a)?;
                let x = match bool_of(&va) {
                    Some(x) => x,
                    None => {
                        return Err(InterpretError::CannotConvertToBoolean);
                    },
                };
                let vb = self.evaluate_expr(b)?;
                let y = match bool_of(&vb) {
                    Some(y) => y,
                    None => {
                        return Err(InterpretError::CannotConvertToBoolean);
                    },
                };
                Ok((x, y))
            },
            _ => Err(InterpretError::CannotConvertToBoolean),
        }
    }

    /// Evaluates an expression and reads it as a number.
    fn eval_number(&self, e: &Expr) -> (r: Result<i32, InterpretError>)
        requires
            self.wf(),
        ensures
            match r {
                Ok(n) => spec_eval_number(self@, e@) == Ok::<i32, SpecError>(n),
                Err(err) => spec_eval_number(self@, e@) == Err::<i32, SpecError>(err@),
            },
    {
        let v = self.evaluate_expr(e)?;
        match number_of(&v) {
            Some(n) => Ok(n),
            None => Err(InterpretError::CannotConvertToNumber),
        }
    }

    /// Moves `distance` along `direction` to the end point the drawing
    /// library gives, recording the line if the pen is down.
    fn move_turtle(&mut self, direction: i32, distance: i32) -> (r: Result<(), InterpretError>)
        requires
            old(self).wf(),
        ensures
            final(self).wf(),
            extends(old(self).ends@, final(self).ends@),
            final(self).ends@.len() <= old(self).ends@.len() + 1,
            (final(self)@, error_view(r)) == spec_move(
                old(self)@,
                direction,
                distance,
                final(self).ends@,
            ),
    {
        if self.pen_down && self.pen_color >= 16 {
            return Err(InterpretError::InvalidPenColor(self.pen_color));
        }
        if !check_line_in_range(self.x, self.y, distance) {
            return Err(InterpretError::CoordinateOutOfRange);
        }
        let end = get_end_coordinates(self.x, self.y, direction, distance);
        self.arrive(direction, distance, end);
        Ok(())
    }

    /// Completes a move of `distance` along `direction` whose end point
    /// the drawing library gave as `end`: the turtle goes there, and the
    /// line is recorded if the pen is down.
    fn arrive(&mut self, direction: i32, distance: i32, end: EndPoint)
        requires
            old(self).wf(),
            !(old(self).pen_down && old(self).pen_color >= 16),
            line_in_range(old(self).x, old(self).y, distance),
        ensures
            final(self).wf(),
            final(self).ends@ == old(self).ends@.push(end),
            spec_move(old(self)@, direction, distance, final(self).ends@) == (
            final(self)@,
            None::<SpecError>,
            ),
    {
        let start_x = self.x;
        let start_y = self.y;
        self.ends = Ghost(self.ends@.push(end));
        self.x = end.0;
        self.y = end.1;
        if self.pen_down {
            let seg = Segment {
                x: start_x,
                y: start_y,
                direction,
                length: distance,
                color: self.pen_color,
            };
            assert(drawable(seg));
            self.segments.push(seg);
        }
    }

    /// `ADDASSIGN v e`.
    #[verifier::rlimit(40)]
    #[verifier::spinoff_prover]
    fn add_assign(&mut self, v: &Expr, e: &Expr) -> (r: Result<(), InterpretError>)
        requires
            old(self).wf(),
        ensures
            final(self).wf(),
            final(self).ends@ == old(self).ends@,
            (final(self)@, error_view(r)) == spec_add_assign(old(self)@, v@, e@),
    {
        let name: String = match v {
            Expr::Variable(n) => match self.find_variable(n) {
                Some(i) => self.variables[i].1.clone(),
                None => {
                    return Err(InterpretError::UndefinedVariable(n.clone()));
                },
            },
            Expr::Literal(n) => n.clone(),
            _ => {
                return Err(InterpretError::InvalidVariableName(v.deep_copy()));
            },
        };
        let current = match self.find_variable(&name) {
            Some(i) => match number_of(&self.variables[i].1) {
                Some(c) => c,
                None => {
                    return Err(InterpretError::CannotConvertNameToNumber(name));
                },
            },
            None => {
                return Err(InterpretError::UndefinedVariable(name));
            },
        };
        let value = self.evaluate_expr(e)?;
        let add = match number_of(&value) {
            Some(a) => a,
            None => {
                return Err(InterpretError::CannotConvertNameToNumber(name));
            },
        };
        let sum = current as i64 + add as i64;
        if sum < -2147483648 || sum > 2147483647 {
            return Err(InterpretError::ArithmeticOverflow);
        }
        self.set_variable(name, number_text(sum as i32));
        Ok(())
    }

    /// Runs statements in order, stopping at the first error.
    fn execute_block(&mut self, b: &Vec<Statement>, fuel: u64) -> (r: Result<(), InterpretError>)
        requires
            old(self).wf(),
        ensures
            final(self).wf(),
            extends(old(self).ends@, final(self).ends@),
            (final(self)@, error_view(r)) == spec_run_block(
                fuel as nat,
                final(self).ends@,
                old(self)@,
                statements_view(b@),
            ),
        decreases fuel, b, 0int,
    {
        let ghost view = statements_view(b@);
        proof {
            lemma_statements_view(b@);
            assert(view.subrange(0, view.len() as int) =~= view);
        }
        let mut i: usize = 0;
        while i < b.len()
            invariant
                0 <= i <= b@.len(),
                self.wf(),
                view == statements_view(b@),
                view.len() == b@.len(),
                forall|j: int| 0 <= j < b@.len() ==> #[trigger] view[j] == b@[j]@,
                extends(old(self).ends@, self.ends@),
                forall|o: Seq<EndPoint>|
                    extends(self.ends@, o) ==> #[trigger] spec_run_block(
                        fuel as nat,
                        o,
                        old(self)@,
                        view,
                    ) == spec_run_block(
                        fuel as nat,
                        o,
                        self@,
                        view.subrange(i as int, view.len() as int),
                    ),
            decreases b@.len() - i,
        {
            let ghost rest = view.subrange(i as int, view.len() as int);
            let ghost before = self@;
            let ghost before_ends = self.ends@;
            assert(rest[0] == b@[i as int]@);
            assert(rest.subrange(1, rest.len() as int) =~= view.subrange(
                i + 1,
                view.len() as int,
            ));
            let r = self.execute_statement(&b[i], fuel);
            assert(extends(before_ends, self.ends@));
            if r.is_err() {
                assert(spec_run_block(fuel as nat, self.ends@, old(self)@, view) == spec_run_block(
                    fuel as nat,
                    self.ends@,
                    before,
                    rest,
                ));
                return r;
            }
            proof {
                assert forall|o: Seq<EndPoint>| extends(self.ends@, o) implies #[trigger] spec_run_block(
                    fuel as nat,
                    o,
                    old(self)@,
                    view,
                ) == spec_run_block(
                    fuel as nat,
                    o,
                    self@,
                    view.subrange(i + 1, view.len() as int),
                ) by {
                    assert(extends(before_ends, o));
                    lemma_run_frame(fuel as nat, self.ends@, o, before, b@[i as int]@);
                }
            }
            i = i + 1;
        }
        proof {
            assert(view.subrange(i as int, view.len() as int).len() == 0);
            assert(extends(self.ends@, self.ends@));
        }
        Ok(())
    }

    /// Runs a statement that moves or draws: `PENUP`, `PENDOWN`,
    /// `FORWARD`, `BACK`, `LEFT` and `RIGHT`.
    #[verifier::rlimit(40)]
    #[verifier::spinoff_prover]
    fn execute_motion(&mut self, s: &Statement) -> (r: Result<(), InterpretError>)
        requires
            old(self).wf(),
            s is PenUp || s is PenDown || s is Forward || s is Back || s is Left || s is Right,
        ensures
            final(self).wf(),
            extends(old(self).ends@, final(self).ends@),
            (final(self)@, error_view(r)) == spec_motion(old(self)@, s@, final(self).ends@),
    {
        reveal(spec_motion);
        match s {
            Statement::PenUp => {
                self.pen_down = false;
                Ok(())
            },
            Statement::PenDown => {
                self.pen_down = true;
                Ok(())
            },
            Statement::Forward(e) => {
                let d = self.eval_number(e)?;
                self.move_turtle(self.heading, d)
            },
            Statement::Back(e) => {
                let d = self.eval_number(e)?;
                if d == i32::MIN {
                    return Err(InterpretError::ArithmeticOverflow);
                }
                self.move_turtle(self.heading, -d)
            },
            Statement::Left(e) => {
                let d = self.eval_number(e)?;
                if self.heading < i32::MIN + 90 || self.heading - 90 > i32::MAX - 360 {
                    return Err(InterpretError::ArithmeticOverflow);
                }
                let direction = (self.heading - 90 + 360) % 360;
                self.move_turtle(direction, d)
            },
            _ => {
                let d = match s {
                    Statement::Right(e) => self.eval_number(e)?,
                    _ => 0,
                };
                if self.heading > i32::MAX - 90 {
                    return Err(InterpretError::ArithmeticOverflow);
                }
                let direction = (self.heading + 90) % 360;
                self.move_turtle(direction, d)
            },
        }
    }

    /// Runs a statement that sets the heading, the pen colour or a
    /// coordinate: `TURN`, `SETPENCOLOR`, `SETHEADING`, `SETX` and `SETY`.
    #[verifier::rlimit(40)]
    #[verifier::spinoff_prover]
    fn execute_setting(&mut self, s: &Statement) -> (r: Result<(), InterpretError>)
        requires
            old(self).wf(),
            s is Turn || s is SetPenColor || s is SetHeading || s is SetX || s is SetY,
        ensures
            final(self).wf(),
            final(self).ends@ == old(self).ends@,
            (final(self)@, error_view(r)) == spec_setting(old(self)@, s@),
    {
        reveal(spec_setting);
        match s {
            Statement::Turn(e) => {
                let a = self.eval_number(e)?;
                let sum = self.heading as i64 + a as i64;
                if sum < -2147483648 || sum > 2147483647 {
                    return Err(InterpretError::ArithmeticOverflow);
                }
                self.heading = sum as i32;
                Ok(())
            },
            Statement::SetPenColor(e) => {
                let c = self.eval_number(e)?;
                self.pen_color = c as u32;
                Ok(())
            },
            Statement::SetHeading(e) => {
                let a = self.eval_number(e)?;
                if a == i32::MIN {
                    return Err(InterpretError::ArithmeticOverflow);
                }
                self.heading = if a < 0 {
                    -a
                } else {
                    a
                };
                Ok(())
            },
            Statement::SetX(e) => {
                let a = self.eval_number(e)?;
                if a == i32::MIN {
                    return Err(InterpretError::ArithmeticOverflow);
                }
                self.x = if a < 0 {
                    -a
                } else {
                    a
                };
                Ok(())
            },
            _ => {
                let a = match s {
                    Statement::SetY(e) => self.eval_number(e)?,
                    _ => 0,
                };
                if a == i32::MIN {
                    return Err(InterpretError::ArithmeticOverflow);
                }
                self.y = if a < 0 {
                    -a
                } else {
                    a
                };
                Ok(())
            },
        }
    }

    /// Runs a statement on variables, a comment, or a procedure
    /// definition (which is refused).
    #[verifier::rlimit(40)]
    #[verifier::spinoff_prover]
    fn execute_other(&mut self, s: &Statement) -> (r: Result<(), InterpretError>)
        requires
            old(self).wf(),
            s is MakeVariable || s is AddAssign || s is ProceduresDefinition || s is Comment,
        ensures
            final(self).wf(),
            final(self).ends@ == old(self).ends@,
            (final(self)@, error_view(r)) == spec_other(old(self)@, s@),
    {
        reveal(spec_other);
        match s {
            Statement::MakeVariable(v, e) => {
                let name = self.evaluate_expr(v)?;
                let value = self.evaluate_expr(e)?;
                self.set_variable(name, value);
                Ok(())
            },
            Statement::AddAssign(v, e) => self.add_assign(v, e),
            Statement::ProceduresDefinition(..) => Err(
                InterpretError::UnimplementedStatement(s.deep_copy()),
            ),
            _ => Ok(()),
        }
    }

    /// Runs a `WHILE` loop: while its condition holds, its body, each time
    /// with one iteration fewer allowed.
    #[verifier::rlimit(40)]
    #[verifier::spinoff_prover]
    fn execute_while(&mut self, s: &Statement, fuel: u64) -> (r: Result<(), InterpretError>)
        requires
            old(self).wf(),
            s is WHILE,
        ensures
            final(self).wf(),
            extends(old(self).ends@, final(self).ends@),
            (final(self)@, error_view(r)) == spec_run(fuel as nat, final(self).ends@, old(self)@, s@),
        decreases fuel, s, 0int,
    {
        match s {
            Statement::WHILE(c, body) => {
                let mut f: u64 = fuel;
                loop
                    invariant
                        self.wf(),
                        f <= fuel,
                        *s == Statement::WHILE(*c, *body),
                        s@ == statement_view_of_while(c, body),
                        extends(old(self).ends@, self.ends@),
                        forall|o: Seq<EndPoint>|
                            extends(self.ends@, o) ==> #[trigger] spec_run(
                                fuel as nat,
                                o,
                                old(self)@,
                                s@,
                            ) == spec_run(f as nat, o, self@, s@),
                    decreases f,
                {
                    proof {
                        assert(extends(self.ends@, self.ends@));
                    }
                    let v = self.evaluate_expr(c)?;
                    if !value_is_true(&v) {
                        return Ok(());
                    }
                    if f == 0 {
                        return Err(InterpretError::LoopLimit);
                    }
                    let ghost before = self@;
                    let ghost before_ends = self.ends@;
                    let r = self.execute_block(body, f);
                    assert(extends(before_ends, self.ends@));
                    if r.is_err() {
                        assert(spec_run(fuel as nat, self.ends@, old(self)@, s@) == spec_run(
                            f as nat,
                            self.ends@,
                            before,
                            s@,
                        ));
                        return r;
                    }
                    proof {
                        assert forall|o: Seq<EndPoint>| extends(self.ends@, o) implies #[trigger] spec_run(
                            fuel as nat,
                            o,
                            old(self)@,
                            s@,
                        ) == spec_run((f - 1) as nat, o, self@, s@) by {
                            assert(extends(before_ends, o));
                            lemma_run_block_frame(
                                f as nat,
                                self.ends@,
                                o,
                                before,
                                statements_view(body@),
                            );
                        }
                    }
                    f = f - 1;
                }
            },
            _ => Ok(()),
        }
    }

    /// Runs one statement.
    fn execute_statement(&mut self, s: &Statement, fuel: u64) -> (r: Result<(), InterpretError>)
        requires
            old(self).wf(),
        ensures
            final(self).wf(),
            extends(old(self).ends@, final(self).ends@),
            (final(self)@, error_view(r)) == spec_run(fuel as nat, final(self).ends@, old(self)@, s@),
        decreases fuel, s, 1int,
    {
        match s {
            Statement::IF(c, body) => {
                let v = self.evaluate_expr(c)?;
                if value_is_true(&v) {
                    self.execute_block(body, fuel)
                } else {
                    Ok(())
                }
            },
            Statement::WHILE(..) => self.execute_while(s, fuel),
            Statement::PenUp | Statement::PenDown | Statement::Forward(_) | Statement::Back(_)
            | Statement::Left(_) | Statement::Right(_) => self.execute_motion(s),
            Statement::Turn(_) | Statement::SetPenColor(_) | Statement::SetHeading(_)
            | Statement::SetX(_) | Statement::SetY(_) => self.execute_setting(s),
            _ => self.execute_other(s),
        }
    }

    /// A new image of the interpreter's size with the segments drawn on
    /// it, in order.
    fn draw_image(&self) -> (image: Image)
        requires
            self.wf(),
        ensures
            image_size(image) == (self@.width, self@.height),
            shows_segments(image_lines(image), self@.segments),
    {
        let mut image = new_image(self.width, self.height);
        let mut k: usize = 0;
        while k < self.segments.len()
            invariant
                0 <= k <= self.segments@.len(),
                self.wf(),
                image_size(image) == (self.width, self.height),
                shows_segments(image_lines(image), self.segments@.take(k as int)),
            decreases self.segments@.len() - k,
        {
            let seg = self.segments[k];
            assert(drawable(self.segments@[k as int]));
            let ghost before = image_lines(image);
            let _ = draw_simple_line(&mut image, seg.x, seg.y, seg.direction, seg.length, seg.color);
            proof {
                let after = image_lines(image);
                let segs = self.segments@.take(k + 1);
                assert forall|j: int| 0 <= j < after.len() implies {
                    &&& (#[trigger] after[j]).4 == segs[j].color
                    &&& exact_in_f32(segs[j].x) ==> after[j].0 == segs[j].x
                    &&& exact_in_f32(segs[j].y) ==> after[j].1 == segs[j].y
                } by {
                    if j < before.len() {
                        assert(after[j] == after.subrange(0, before.len() as int)[j]);
                        assert(segs[j] == self.segments@.take(k as int)[j]);
                    }
                }
            }
            k = k + 1;
        }
        assert(self.segments@.take(self.segments@.len() as int) =~= self.segments@);
        image
    }

    /// Runs a program from the interpreter's current state, with each
    /// `WHILE` loop allowed `u64::MAX` iterations, the moves ending where
    /// the drawing library puts them. On success the result is a new
    /// image of the interpreter's size showing every line drawn so far;
    /// on an error the interpreter keeps the state it had reached when the
    /// error arose.
    pub fn interpret(&mut self, program: &Program) -> (r: Result<Image, InterpretError>)
        requires
            old(self).wf(),
        ensures
            final(self).wf(),
            extends(old(self).end_points(), final(self).end_points()),
            (final(self)@, error_view(r)) == spec_run_block(
                loop_fuel(),
                final(self).end_points(),
                old(self)@,
                program@,
            ),
            r matches Ok(image) ==> image_size(image) == (final(self)@.width, final(self)@.height)
                && shows_segments(image_lines(image), final(self)@.segments),
    {
        self.execute_block(&program.statements, u64::MAX)?;
        Ok(self.draw_image())
    }

    /// The turtle's position `(x, y)`.
    pub fn position(&self) -> (r: (i32, i32))
        ensures
            r == (self@.x, self@.y),
    {
        (self.x, self.y)
    }

    /// The turtle's heading in degrees (0 up, clockwise; not normalised).
    pub fn heading(&self) -> (r: i32)
        ensures
            r == self@.heading,
    {
        self.heading
    }

    /// Whether the pen is down.
    pub fn is_pen_down(&self) -> (r: bool)
        ensures
            r == self@.pen_down,
    {
        self.pen_down
    }

    /// The pen colour, an index into the 16-colour palette when valid.
    pub fn pen_color(&self) -> (r: u32)
        ensures
            r == self@.pen_color,
    {
        self.pen_color
    }

    /// The value of variable `name`, if it has one.
    pub fn variable(&self, name: &String) -> (r: Option<String>)
        requires
            self.wf(),
        ensures
            match r {
                Some(v) => self@.variables.contains_key(name@) && v@ == self@.variables[name@],
                None => !self@.variables.contains_key(name@),
            },
    {
        match self.find_variable(name) {
            Some(i) => Some(self.variables[i].1.clone()),
            None => None,
        }
    }

    /// The lines drawn so far, in order.
    pub fn segments(&self) -> (r: &Vec<Segment>)
        ensures
            r@ == self@.segments,
    {
        &self.segments
    }

}

} // verus!
