use rslogo::logo_reader::{check_logo_extension, parse_logo_file, LogoFileError};
use rslogo::logo_syntax::{Expr, Statement};

#[test]
fn logo_extension_is_accepted() {
    assert_eq!(check_logo_extension(Some("lg")), Ok(()));
}

#[test]
fn other_extensions_are_refused() {
    assert_eq!(check_logo_extension(Some("txt")), Err(LogoFileError::WrongExtension));
    assert_eq!(check_logo_extension(Some("LG")), Err(LogoFileError::WrongExtension));
    assert_eq!(check_logo_extension(Some("lgx")), Err(LogoFileError::WrongExtension));
    assert_eq!(check_logo_extension(Some("")), Err(LogoFileError::WrongExtension));
}

#[test]
fn missing_extension_is_refused() {
    assert_eq!(check_logo_extension(None), Err(LogoFileError::NoExtension));
}

#[test]
fn file_text_becomes_a_program() {
    let p = parse_logo_file("// square\nMAKE \"n \"4\nWHILE GT :n \"0 [\n  FORWARD \"10\n  TURN \"90\n  ADDASSIGN \"n \"-1\n]\n");
    assert_eq!(
        p.statements,
        vec![
            Statement::Comment,
            Statement::MakeVariable(Expr::Literal("n".to_string()), Expr::Literal("4".to_string())),
            Statement::WHILE(
                Expr::GT(
                    Box::new(Expr::Variable("n".to_string())),
                    Box::new(Expr::Literal("0".to_string()))
                ),
                vec![
                    Statement::Forward(Expr::Literal("10".to_string())),
                    Statement::Turn(Expr::Literal("90".to_string())),
                    Statement::AddAssign(Expr::Literal("n".to_string()), Expr::Literal("-1".to_string())),
                ],
            ),
        ]
    );
}

#[test]
fn text_after_the_last_statement_is_ignored() {
    let p = parse_logo_file("PENUP\nthis is not logo\nPENDOWN");
    assert_eq!(p.statements, vec![Statement::PenUp]);
}

#[test]
fn empty_file_is_an_empty_program() {
    assert!(parse_logo_file("").statements.is_empty());
    assert!(parse_logo_file("   \n\n").statements.is_empty());
}
