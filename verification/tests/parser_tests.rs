use rslogo::logo_parser::{
    parse_comment, parse_identifier, parse_condition_expr, parse_arithmetic_expr, parse_if,
    parse_while, parse_literal, parse_variable, parse_procedure_call, parse_program_procedure,
    parse_expr, parse_make, parse_addassign, parse_penup, parse_pendown, parse_forward,
    parse_back, parse_left, parse_right, parse_turn, parse_setpencolor, parse_setheading,
    parse_setx, parse_sety, parse_procedure_definition, parse_statement, parse_program,
};
use rslogo::logo_syntax::{Expr, Statement, ProgramProcedure};

fn chars(s: &str) -> Vec<char> {
    s.chars().collect()
}

fn lit(s: &str) -> Expr {
    Expr::Literal(s.to_string())
}

fn var(s: &str) -> Expr {
    Expr::Variable(s.to_string())
}

fn bx(e: Expr) -> Box<Expr> {
    Box::new(e)
}

#[test]
fn comment_runs_to_end_of_line() {
    assert_eq!(parse_comment(&chars("// hello\nPENUP")), Some((9, ())));
    assert_eq!(parse_comment(&chars("//\n")), Some((3, ())));
}

#[test]
fn comment_needs_a_line_feed() {
    assert_eq!(parse_comment(&chars("// no newline")), None);
    assert_eq!(parse_comment(&chars("/ x\n")), None);
}

#[test]
fn identifier_takes_longest_name() {
    assert_eq!(parse_identifier(&chars("abc_1 rest")), Some((5, "abc_1".to_string())));
    assert_eq!(parse_identifier(&chars("-abc")), None);
    assert_eq!(parse_identifier(&chars("")), None);
}

#[test]
fn literal_words() {
    assert_eq!(parse_literal(&chars("\"10 rest")), Some((3, lit("10"))));
    assert_eq!(parse_literal(&chars("\"-5")), Some((3, lit("-5"))));
    assert_eq!(parse_literal(&chars("\"a-b_c]")), Some((6, lit("a-b_c"))));
    assert_eq!(parse_literal(&chars("\" x")), None);
    assert_eq!(parse_literal(&chars("10")), None);
}

#[test]
fn variables() {
    assert_eq!(parse_variable(&chars(":size ")), Some((5, var("size"))));
    assert_eq!(parse_variable(&chars(":")), None);
    assert_eq!(parse_variable(&chars("size")), None);
}

#[test]
fn turtle_queries() {
    assert_eq!(parse_program_procedure(&chars("XCOR")), Some((4, Expr::ProgramProcedure(ProgramProcedure::XCOR))));
    assert_eq!(parse_program_procedure(&chars("YCOR")), Some((4, Expr::ProgramProcedure(ProgramProcedure::YCOR))));
    assert_eq!(parse_program_procedure(&chars("HEADING")), Some((7, Expr::ProgramProcedure(ProgramProcedure::HEADING))));
    assert_eq!(parse_program_procedure(&chars("COLOR")), Some((5, Expr::ProgramProcedure(ProgramProcedure::COLOR))));
    assert_eq!(parse_program_procedure(&chars("XCORD")), Some((4, Expr::ProgramProcedure(ProgramProcedure::XCOR))));
    assert_eq!(parse_program_procedure(&chars("ZCOR")), None);
}

#[test]
fn arithmetic_expressions() {
    assert_eq!(parse_arithmetic_expr(&chars("+ \"1 :x")), Some((7, Expr::ADD(bx(lit("1")), bx(var("x"))))));
    assert_eq!(parse_arithmetic_expr(&chars("- \"1 \"2")), Some((7, Expr::SUB(bx(lit("1")), bx(lit("2"))))));
    assert_eq!(parse_arithmetic_expr(&chars("* \"1 \"2")), Some((7, Expr::MUL(bx(lit("1")), bx(lit("2"))))));
    assert_eq!(parse_arithmetic_expr(&chars("/ \"1 \"2")), Some((7, Expr::DIV(bx(lit("1")), bx(lit("2"))))));
    assert_eq!(parse_arithmetic_expr(&chars("+\"1 \"2")), None);
    assert_eq!(parse_arithmetic_expr(&chars("+ \"1")), None);
}

#[test]
fn nested_arithmetic() {
    let r = parse_arithmetic_expr(&chars("* + \"1 \"2 XCOR"));
    assert_eq!(
        r,
        Some((14, Expr::MUL(bx(Expr::ADD(bx(lit("1")), bx(lit("2")))), bx(Expr::ProgramProcedure(ProgramProcedure::XCOR)))))
    );
}

#[test]
fn condition_expressions() {
    assert_eq!(parse_condition_expr(&chars("EQ :a \"1")), Some((8, Expr::EQ(bx(var("a")), bx(lit("1"))))));
    assert_eq!(parse_condition_expr(&chars("NE :a \"1")), Some((8, Expr::NE(bx(var("a")), bx(lit("1"))))));
    assert_eq!(parse_condition_expr(&chars("LT :a \"1")), Some((8, Expr::LT(bx(var("a")), bx(lit("1"))))));
    assert_eq!(parse_condition_expr(&chars("GT :a \"1")), Some((8, Expr::GT(bx(var("a")), bx(lit("1"))))));
    assert_eq!(parse_condition_expr(&chars("AND \"true \"false")), Some((16, Expr::AND(bx(lit("true")), bx(lit("false"))))));
    assert_eq!(parse_condition_expr(&chars("OR \"true \"false")), Some((15, Expr::OR(bx(lit("true")), bx(lit("false"))))));
    assert_eq!(parse_condition_expr(&chars("EQUAL")), None);
}

#[test]
fn procedure_calls() {
    assert_eq!(parse_procedure_call(&chars("box")), Some((3, Expr::ProcedureCall("box".to_string(), vec![]))));
    assert_eq!(
        parse_procedure_call(&chars("box \"10 :x ]")),
        Some((10, Expr::ProcedureCall("box".to_string(), vec![lit("10"), var("x")])))
    );
}

#[test]
fn expression_alternatives_in_order() {
    assert_eq!(parse_expr(&chars("EQUAL")), Some((5, Expr::ProcedureCall("EQUAL".to_string(), vec![]))));
    assert_eq!(parse_expr(&chars("\"5")), Some((2, lit("5"))));
    assert_eq!(parse_expr(&chars(":v")), Some((2, var("v"))));
    assert_eq!(parse_expr(&chars("-5")), None);
    assert_eq!(parse_expr(&chars("")), None);
}

#[test]
fn make_and_addassign() {
    assert_eq!(parse_make(&chars("MAKE \"x \"5")), Some((10, Statement::MakeVariable(lit("x"), lit("5")))));
    assert_eq!(parse_addassign(&chars("ADDASSIGN \"x :y")), Some((15, Statement::AddAssign(lit("x"), var("y")))));
    assert_eq!(parse_make(&chars("MAKE \"x")), None);
}

#[test]
fn pen_statements() {
    assert_eq!(parse_penup(&chars("PENUP")), Some((5, Statement::PenUp)));
    assert_eq!(parse_pendown(&chars("PENDOWN\n")), Some((7, Statement::PenDown)));
    assert_eq!(parse_penup(&chars("PENDOWN")), None);
}

#[test]
fn commands_with_one_operand() {
    assert_eq!(parse_forward(&chars("FORWARD \"10")), Some((11, Statement::Forward(lit("10")))));
    assert_eq!(parse_back(&chars("BACK \"10")), Some((8, Statement::Back(lit("10")))));
    assert_eq!(parse_left(&chars("LEFT \"10")), Some((8, Statement::Left(lit("10")))));
    assert_eq!(parse_right(&chars("RIGHT \"10")), Some((9, Statement::Right(lit("10")))));
    assert_eq!(parse_turn(&chars("TURN \"90")), Some((8, Statement::Turn(lit("90")))));
    assert_eq!(parse_setpencolor(&chars("SETPENCOLOR \"1")), Some((14, Statement::SetPenColor(lit("1")))));
    assert_eq!(parse_setheading(&chars("SETHEADING \"1")), Some((13, Statement::SetHeading(lit("1")))));
    assert_eq!(parse_setx(&chars("SETX \"1")), Some((7, Statement::SetX(lit("1")))));
    assert_eq!(parse_sety(&chars("SETY \"1")), Some((7, Statement::SetY(lit("1")))));
    assert_eq!(parse_forward(&chars("FORWARD\"10")), None);
}

#[test]
fn if_and_while_blocks() {
    assert_eq!(
        parse_if(&chars("IF EQ :a \"1 [ PENUP ]")),
        Some((21, Statement::IF(Expr::EQ(bx(var("a")), bx(lit("1"))), vec![Statement::PenUp])))
    );
    assert_eq!(
        parse_while(&chars("WHILE :c [\n  FORWARD \"1\n  PENUP\n]")),
        Some((33, Statement::WHILE(var("c"), vec![Statement::Forward(lit("1")), Statement::PenUp])))
    );
    assert_eq!(parse_if(&chars("IF :c []")), Some((8, Statement::IF(var("c"), vec![]))));
    assert_eq!(parse_if(&chars("IF :c [ PENUP")), None);
}

#[test]
fn procedure_definitions() {
    assert_eq!(
        parse_procedure_definition(&chars("TO box :size :n\n  FORWARD :size\nEND")),
        Some((
            35,
            Statement::ProceduresDefinition(
                "box".to_string(),
                vec!["size".to_string(), "n".to_string()],
                vec![Statement::Forward(var("size"))],
            )
        ))
    );
    assert_eq!(parse_procedure_definition(&chars("TO box\nEND")), None);
}

#[test]
fn statement_alternatives() {
    assert_eq!(parse_statement(&chars("// note\n")), Some((8, Statement::Comment)));
    assert_eq!(parse_statement(&chars("PENUPX")), Some((5, Statement::PenUp)));
    assert_eq!(parse_statement(&chars("box \"1")), None);
}

#[test]
fn program_of_statements() {
    let (n, p) = parse_program(&chars("PENUP\nFORWARD \"10\n")).unwrap();
    assert_eq!(n, 18);
    assert_eq!(p.statements, vec![Statement::PenUp, Statement::Forward(lit("10"))]);
}

#[test]
fn program_keeps_comments_and_stops_at_garbage() {
    let (n, p) = parse_program(&chars("  // c\nPENDOWN ???\nPENUP")).unwrap();
    assert_eq!(n, 15);
    assert_eq!(p.statements, vec![Statement::Comment, Statement::PenDown]);
}

#[test]
fn empty_program() {
    let (n, p) = parse_program(&chars("")).unwrap();
    assert_eq!(n, 0);
    assert!(p.statements.is_empty());
}
