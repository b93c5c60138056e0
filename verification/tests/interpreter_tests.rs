use rslogo::logo_interpreter::{Interpreter, InterpretError};
use rslogo::logo_reader::parse_logo_file;
use rslogo::logo_semantics::Segment;
use rslogo::logo_syntax::{Expr, Statement, ProgramProcedure};

fn run(source: &str) -> (Interpreter, Result<(), InterpretError>) {
    let program = parse_logo_file(source);
    let mut interpreter = Interpreter::new(200, 200);
    let r = interpreter.interpret(&program).map(|_| ());
    (interpreter, r)
}

fn value(interpreter: &Interpreter, name: &str) -> Option<String> {
    interpreter.variable(&name.to_string())
}

fn seg(x: i32, y: i32, direction: i32, length: i32, color: u32) -> Segment {
    Segment { x, y, direction, length, color }
}

#[test]
fn new_turtle_starts_in_the_middle() {
    let interpreter = Interpreter::new(200, 100);
    assert_eq!(interpreter.position(), (100, 50));
    assert_eq!(interpreter.heading(), 0);
    assert!(interpreter.is_pen_down());
    assert_eq!(interpreter.pen_color(), 7);
    assert!(interpreter.segments().is_empty());
}

#[test]
fn new_turtle_odd_size_rounds_toward_zero() {
    let interpreter = Interpreter::new(5, 7);
    assert_eq!(interpreter.position(), (2, 3));
}

#[test]
fn forward_moves_up_and_draws() {
    let (t, r) = run("FORWARD \"10");
    assert_eq!(r, Ok(()));
    assert_eq!(t.position(), (100, 90));
    assert_eq!(t.segments(), &vec![seg(100, 100, 0, 10, 7)]);
}

#[test]
fn back_moves_down_and_draws() {
    let (t, r) = run("BACK \"10");
    assert_eq!(r, Ok(()));
    assert_eq!(t.position(), (100, 110));
    assert_eq!(t.segments(), &vec![seg(100, 100, 0, -10, 7)]);
}

#[test]
fn left_and_right_move_sideways_without_turning() {
    let (t, r) = run("LEFT \"10");
    assert_eq!(r, Ok(()));
    assert_eq!(t.position(), (90, 100));
    assert_eq!(t.heading(), 0);
    assert_eq!(t.segments(), &vec![seg(100, 100, 270, 10, 7)]);
    let (t, r) = run("RIGHT \"10");
    assert_eq!(r, Ok(()));
    assert_eq!(t.position(), (110, 100));
    assert_eq!(t.segments(), &vec![seg(100, 100, 90, 10, 7)]);
}

#[test]
fn pen_up_moves_without_drawing() {
    let (t, r) = run("PENUP\nFORWARD \"10\nLEFT \"5\nPENDOWN\nRIGHT \"5");
    assert_eq!(r, Ok(()));
    assert_eq!(t.position(), (100, 90));
    assert!(t.is_pen_down());
    assert_eq!(t.segments(), &vec![seg(95, 90, 90, 5, 7)]);
}

#[test]
fn turn_and_setheading() {
    let (t, r) = run("TURN \"90\nTURN \"45");
    assert_eq!(r, Ok(()));
    assert_eq!(t.heading(), 135);
    let (t, r) = run("SETHEADING \"-90");
    assert_eq!(r, Ok(()));
    assert_eq!(t.heading(), 90);
    let (t, r) = run("TURN \"90\nFORWARD \"10");
    assert_eq!(r, Ok(()));
    assert_eq!(t.position(), (110, 100));
}

#[test]
fn setx_sety_take_absolute_values() {
    let (t, r) = run("SETX \"-5\nSETY \"7");
    assert_eq!(r, Ok(()));
    assert_eq!(t.position(), (5, 7));
    assert!(t.segments().is_empty());
}

#[test]
fn setpencolor_sets_the_colour_of_later_lines() {
    let (t, r) = run("SETPENCOLOR \"3\nFORWARD \"1");
    assert_eq!(r, Ok(()));
    assert_eq!(t.pen_color(), 3);
    assert_eq!(t.segments(), &vec![seg(100, 100, 0, 1, 3)]);
}

#[test]
fn make_then_read() {
    let (t, r) = run("MAKE \"x \"5\nMAKE \"y :x\nMAKE \"x \"hello");
    assert_eq!(r, Ok(()));
    assert_eq!(value(&t, "x"), Some("hello".to_string()));
    assert_eq!(value(&t, "y"), Some("5".to_string()));
    assert_eq!(value(&t, "z"), None);
}

#[test]
fn make_with_computed_name() {
    let (t, r) = run("MAKE \"n \"count\nMAKE :n \"3");
    assert_eq!(r, Ok(()));
    assert_eq!(value(&t, "count"), Some("3".to_string()));
}

#[test]
fn addassign_adds_to_the_named_variable() {
    let (t, r) = run("MAKE \"x \"5\nADDASSIGN \"x \"3");
    assert_eq!(r, Ok(()));
    assert_eq!(value(&t, "x"), Some("8".to_string()));
    let (t, r) = run("MAKE \"x \"5\nMAKE \"p \"x\nADDASSIGN :p \"-7");
    assert_eq!(r, Ok(()));
    assert_eq!(value(&t, "x"), Some("-2".to_string()));
    assert_eq!(value(&t, "p"), Some("x".to_string()));
}

#[test]
fn queries_give_the_turtle_state() {
    let (t, r) = run("SETX \"5\nTURN \"45\nMAKE \"a XCOR\nMAKE \"b YCOR\nMAKE \"h HEADING\nMAKE \"c COLOR");
    assert_eq!(r, Ok(()));
    assert_eq!(value(&t, "a"), Some("5".to_string()));
    assert_eq!(value(&t, "b"), Some("100".to_string()));
    assert_eq!(value(&t, "h"), Some("45".to_string()));
    assert_eq!(value(&t, "c"), Some("7".to_string()));
}

#[test]
fn arithmetic_and_comparisons() {
    let (t, r) = run(
        "MAKE \"a + \"2 \"3\nMAKE \"b - \"2 \"3\nMAKE \"c * \"4 \"-3\nMAKE \"d / \"-7 \"2\n\
         MAKE \"e EQ \"1 \"1\nMAKE \"f NE \"1 \"1\nMAKE \"g LT \"1 \"2\nMAKE \"h GT \"1 \"2\n\
         MAKE \"i AND \"true \"false\nMAKE \"j OR \"true \"false",
    );
    assert_eq!(r, Ok(()));
    assert_eq!(value(&t, "a"), Some("5".to_string()));
    assert_eq!(value(&t, "b"), Some("-1".to_string()));
    assert_eq!(value(&t, "c"), Some("-12".to_string()));
    assert_eq!(value(&t, "d"), Some("-3".to_string()));
    assert_eq!(value(&t, "e"), Some("true".to_string()));
    assert_eq!(value(&t, "f"), Some("false".to_string()));
    assert_eq!(value(&t, "g"), Some("true".to_string()));
    assert_eq!(value(&t, "h"), Some("false".to_string()));
    assert_eq!(value(&t, "i"), Some("false".to_string()));
    assert_eq!(value(&t, "j"), Some("true".to_string()));
}

#[test]
fn if_runs_its_block_on_true_in_any_case() {
    let (t, r) = run("IF \"true [ FORWARD \"1 ]\nIF \"TRUE [ FORWARD \"1 ]\nIF \"tRuE [ FORWARD \"1 ]");
    assert_eq!(r, Ok(()));
    assert_eq!(t.segments().len(), 3);
    let (t, r) = run("IF \"false [ FORWARD \"1 ]\nIF \"yes [ FORWARD \"1 ]");
    assert_eq!(r, Ok(()));
    assert!(t.segments().is_empty());
}

#[test]
fn while_counts_up() {
    let (t, r) = run("MAKE \"i \"0\nWHILE LT :i \"3 [\n  ADDASSIGN \"i \"1\n  FORWARD \"2\n]");
    assert_eq!(r, Ok(()));
    assert_eq!(value(&t, "i"), Some("3".to_string()));
    assert_eq!(t.position(), (100, 94));
    assert_eq!(
        t.segments(),
        &vec![seg(100, 100, 0, 2, 7), seg(100, 98, 0, 2, 7), seg(100, 96, 0, 2, 7)]
    );
}

#[test]
fn while_with_false_condition_does_nothing() {
    let (t, r) = run("WHILE \"false [ FORWARD \"1 ]");
    assert_eq!(r, Ok(()));
    assert!(t.segments().is_empty());
}

#[test]
fn error_cannot_convert_to_number() {
    let (t, r) = run("FORWARD \"1\nFORWARD \"abc\nFORWARD \"1");
    assert_eq!(r, Err(InterpretError::CannotConvertToNumber));
    assert_eq!(t.segments().len(), 1);
}

#[test]
fn error_cannot_convert_name_to_number() {
    let (_, r) = run("MAKE \"x \"abc\nADDASSIGN \"x \"1");
    assert_eq!(r, Err(InterpretError::CannotConvertNameToNumber("x".to_string())));
    let (_, r) = run("MAKE \"x \"1\nADDASSIGN \"x \"one");
    assert_eq!(r, Err(InterpretError::CannotConvertNameToNumber("x".to_string())));
}

#[test]
fn error_undefined_variable() {
    let (_, r) = run("FORWARD :y");
    assert_eq!(r, Err(InterpretError::UndefinedVariable("y".to_string())));
    let (_, r) = run("ADDASSIGN \"z \"1");
    assert_eq!(r, Err(InterpretError::UndefinedVariable("z".to_string())));
}

#[test]
fn error_invalid_variable_name() {
    let (_, r) = run("ADDASSIGN XCOR \"1");
    assert_eq!(
        r,
        Err(InterpretError::InvalidVariableName(Expr::ProgramProcedure(ProgramProcedure::XCOR)))
    );
}

#[test]
fn error_cannot_convert_to_integer() {
    let (_, r) = run("FORWARD + \"a \"1");
    assert_eq!(r, Err(InterpretError::CannotConvertToInteger));
}

#[test]
fn error_cannot_convert_to_boolean() {
    let (_, r) = run("IF AND \"yes \"true [ PENUP ]");
    assert_eq!(r, Err(InterpretError::CannotConvertToBoolean));
}

#[test]
fn error_unimplemented_statement() {
    let (_, r) = run("TO box\n  FORWARD \"1\nEND");
    assert_eq!(
        r,
        Err(InterpretError::UnimplementedStatement(Statement::ProceduresDefinition(
            "box".to_string(),
            vec![],
            vec![Statement::Forward(Expr::Literal("1".to_string()))],
        )))
    );
}

#[test]
fn error_unimplemented_expression() {
    let (_, r) = run("FORWARD box");
    assert_eq!(
        r,
        Err(InterpretError::UnimplementedExpression(Expr::ProcedureCall("box".to_string(), vec![])))
    );
}

#[test]
fn error_arithmetic_overflow() {
    let (_, r) = run("FORWARD * \"100000 \"100000");
    assert_eq!(r, Err(InterpretError::ArithmeticOverflow));
    let (_, r) = run("MAKE \"x \"2147483647\nADDASSIGN \"x \"1");
    assert_eq!(r, Err(InterpretError::ArithmeticOverflow));
    let (_, r) = run("SETX \"-2147483648");
    assert_eq!(r, Err(InterpretError::ArithmeticOverflow));
}

#[test]
fn error_division_by_zero() {
    let (_, r) = run("FORWARD / \"1 \"0");
    assert_eq!(r, Err(InterpretError::DivisionByZero));
}

#[test]
fn error_invalid_pen_color() {
    let (t, r) = run("SETPENCOLOR \"16\nFORWARD \"1");
    assert_eq!(r, Err(InterpretError::InvalidPenColor(16)));
    assert_eq!(t.position(), (100, 100));
    assert!(t.segments().is_empty());
    let (t, r) = run("SETPENCOLOR \"16\nPENUP\nFORWARD \"1");
    assert_eq!(r, Ok(()));
    assert_eq!(t.position(), (100, 99));
    let (t, r) = run("SETPENCOLOR \"16\nLEFT \"1");
    assert_eq!(r, Err(InterpretError::InvalidPenColor(16)));
    assert_eq!(t.position(), (100, 100));
}

#[test]
fn error_coordinate_out_of_range() {
    let (t, r) = run("SETX \"2147483000\nFORWARD \"0");
    assert_eq!(r, Err(InterpretError::CoordinateOutOfRange));
    assert_eq!(t.position(), (2147483000, 100));
    let (_, r) = run("FORWARD \"2147482600");
    assert_eq!(r, Err(InterpretError::CoordinateOutOfRange));
}

#[test]
fn long_moves_within_range() {
    let (t, r) = run("FORWARD \"1073741824");
    assert_eq!(r, Ok(()));
    assert!(t.position().1 < -1_000_000_000);
    assert_eq!(t.segments().len(), 1);
    let (t, r) = run("PENUP\nSETX \"2000000000\nRIGHT \"147481984");
    assert_eq!(r, Ok(()));
    assert_eq!(t.position(), (2147481984, 100));
}

#[test]
fn error_stops_the_run() {
    let (t, r) = run("MAKE \"x \"1\nFORWARD :nothing\nMAKE \"x \"2");
    assert_eq!(r, Err(InterpretError::UndefinedVariable("nothing".to_string())));
    assert_eq!(value(&t, "x"), Some("1".to_string()));
}

#[test]
fn comments_change_nothing() {
    let (t, r) = run("// a comment\nFORWARD \"3\n// another\n");
    assert_eq!(r, Ok(()));
    assert_eq!(t.position(), (100, 97));
}

#[test]
fn running_two_programs_in_turn_is_running_their_concatenation() {
    let mut first = Interpreter::new(200, 200);
    assert!(first.interpret(&parse_logo_file("FORWARD \"5\nMAKE \"a \"1")).is_ok());
    assert!(first.interpret(&parse_logo_file("LEFT \"5\nADDASSIGN \"a \"2")).is_ok());
    let (second, r) = run("FORWARD \"5\nMAKE \"a \"1\nLEFT \"5\nADDASSIGN \"a \"2");
    assert_eq!(r, Ok(()));
    assert_eq!(first.position(), second.position());
    assert_eq!(first.segments(), second.segments());
    assert_eq!(value(&first, "a"), Some("3".to_string()));
    assert_eq!(value(&second, "a"), Some("3".to_string()));
}

#[test]
fn back_is_forward_negated() {
    let (a, ra) = run("BACK \"7\nLEFT \"3");
    let (b, rb) = run("FORWARD \"-7\nLEFT \"3");
    assert_eq!(ra, Ok(()));
    assert_eq!(rb, Ok(()));
    assert_eq!(a.position(), b.position());
    assert_eq!(a.segments(), b.segments());
}

#[test]
fn set_then_query_reads_the_magnitude() {
    let (t, r) = run("SETX \"-12\nSETY \"-13\nSETHEADING \"-14\nSETPENCOLOR \"-1\nMAKE \"x XCOR\nMAKE \"y YCOR\nMAKE \"h HEADING\nMAKE \"c COLOR");
    assert_eq!(r, Ok(()));
    assert_eq!(value(&t, "x"), Some("12".to_string()));
    assert_eq!(value(&t, "y"), Some("13".to_string()));
    assert_eq!(value(&t, "h"), Some("14".to_string()));
    assert_eq!(value(&t, "c"), Some("-1".to_string()));
    assert_eq!(t.pen_color(), u32::MAX);
}

#[test]
fn interpret_returns_an_image_of_the_interpreter_size() {
    let mut interpreter = Interpreter::new(300, 150);
    let image = interpreter.interpret(&parse_logo_file("FORWARD \"10\nRIGHT \"5")).unwrap();
    assert_eq!(image.get_dimensions(), (300, 150));
    assert_eq!(interpreter.segments().len(), 2);
}

#[test]
fn zero_length_move_stays_put() {
    let (t, r) = run("TURN \"37\nFORWARD \"0\nLEFT \"0");
    assert_eq!(r, Ok(()));
    assert_eq!(t.position(), (100, 100));
    assert_eq!(t.segments(), &vec![seg(100, 100, 37, 0, 7), seg(100, 100, 307, 0, 7)]);
}

#[test]
fn empty_program_gives_a_blank_image_of_the_given_size() {
    let mut interpreter = Interpreter::new(200, 100);
    let image = interpreter.interpret(&parse_logo_file("")).unwrap();
    assert_eq!(image.get_dimensions(), (200, 100));
}
