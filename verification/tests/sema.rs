use tol::ast::expr::{Expr, ExprKind};
use tol::ast::{Param, Spanned};
use tol::ast::stmt::{Stmt, StmtKind};
use tol::diagnostic::error::TolError;
use tol::diagnostic::TolDiagnostic;
use tol::lexer::Lexer;
use tol::module::Module;
use tol::parser::Parser;
use tol::sema::name_resolver::NameResolver;
use tol::sema::analyzer_ctx::AnalyzerCtx;
use tol::sema::type_checker::TypeChecker;
use tol::sema::SemanticAnalyzer;
use tol::symbol::SymbolKind;
use tol::token::{Token, TokenKind};
use tol::toltype::TolType;

fn parsed_module(src: &str) -> Module {
    let mut modul = Module::new(src.to_string());
    let mut tokens = Lexer::new(src).run();
    let end = src.len();
    tokens.push(Token::new("<EOF>".to_string(), TokenKind::Eof, end..end));
    modul.set_diagnostics(Vec::new());
    let mut parser = Parser::new(tokens, &mut modul);
    parser.run();
    modul
}

fn resolved_module(src: &str) -> Module {
    let mut modul = parsed_module(src);
    let mut analyzer = SemanticAnalyzer::new(&mut modul);
    analyzer.run();
    modul
}

fn checked_module(src: &str) -> Module {
    let mut modul = resolved_module(src);
    let mut checker = TypeChecker::new(&mut modul);
    checker.run();
    modul
}

#[test]
fn parser_builds_statements_and_reports_errors() {
    let mut modul = parsed_module("x: numero = 1;\n2 + ;\ny = 3;\nz: tipo = 1;\n");
    let ast = modul.ast();
    assert_eq!(ast.len(), 3);
    match ast[0].kind() {
        StmtKind::NameDeclaration { name, ty, rhs, is_mutable } => {
            assert_eq!(name.lexeme(), "x");
            assert_eq!(*ty, Some(TolType::Numero));
            assert!(!*is_mutable);
            assert_eq!(rhs.to_string(), "1");
        }
        _ => panic!("expected a name declaration"),
    }
    assert_eq!(ast[0].span, 0..14);
    match ast[1].kind() {
        StmtKind::Expression { expr } => assert_eq!(expr.to_string(), "(y = 3)"),
        _ => panic!("expected an expression statement"),
    }
    match ast[2].kind() {
        StmtKind::Expression { expr } => assert_eq!(expr.to_string(), "1"),
        _ => panic!("expected an expression statement"),
    }
    let diags = modul.take_diagnostics();
    assert_eq!(diags.len(), 3);
    match &diags[2] {
        TolDiagnostic::Error(TolError::InvalidStartOfAnExpression { span }) => assert_eq!(span, &(36..37)),
        other => panic!("unexpected diagnostic: {:?}", other),
    }
    match &diags[0] {
        TolDiagnostic::Error(TolError::InvalidStartOfAnExpression { span }) => assert_eq!(span, &(19..20)),
        other => panic!("unexpected diagnostic: {:?}", other),
    }
    match &diags[1] {
        TolDiagnostic::Error(TolError::InvalidType { invalid_type, type_span }) => {
            assert_eq!(invalid_type, "tipo");
            assert_eq!(type_span, &(31..35));
        }
        other => panic!("unexpected diagnostic: {:?}", other),
    }
}

#[test]
fn missing_semicolon_is_reported() {
    let mut modul = parsed_module("a: = 1 2");
    let diags = modul.take_diagnostics();
    match &diags[0] {
        TolDiagnostic::Error(TolError::UnexpectedToken { token, expected, span }) => {
            assert_eq!(token, "2");
            assert_eq!(expected, ";");
            assert_eq!(span, &(7..8));
        }
        other => panic!("unexpected diagnostic: {:?}", other),
    }
}

#[test]
fn missing_type_is_reported() {
    let mut modul = parsed_module("a: 1 = 1;");
    let diags = modul.take_diagnostics();
    match &diags[0] {
        TolDiagnostic::Error(TolError::UnexpectedToken { token, expected, .. }) => {
            assert_eq!(token, "1");
            assert_eq!(expected, "tipo");
        }
        other => panic!("unexpected diagnostic: {:?}", other),
    }
}

#[test]
fn assignment_groups_to_the_left() {
    let mut modul = parsed_module("a = b = c;");
    match modul.ast()[0].kind() {
        StmtKind::Expression { expr } => assert_eq!(expr.to_string(), "((a = b) = c)"),
        _ => panic!("expected an expression statement"),
    }
    assert_eq!(modul.take_diagnostics().len(), 0);
}

#[test]
fn names_resolve_to_their_declarations() {
    let mut modul = resolved_module("x: numero = 1;\nx = x + 2;\ny;\nx: lutang = 3.5;\n");
    let ast = modul.ast();
    assert_eq!(ast[0].symbol_id(), Some(0));
    match ast[1].kind() {
        StmtKind::Expression { expr } => {
            assert_eq!(expr.to_string(), "((x = x) + 2)");
            match expr.kind() {
                ExprKind::Binary { lhs, .. } => match lhs.kind() {
                    ExprKind::Binary { lhs, rhs, .. } => {
                        assert_eq!(lhs.symbol_id(), Some(0));
                        assert_eq!(rhs.symbol_id(), Some(0));
                    }
                    _ => panic!("expected a binary expression"),
                },
                _ => panic!("expected a binary expression"),
            }
        }
        _ => panic!("expected an expression statement"),
    }
    assert_eq!(ast[3].symbol_id(), None);
    let diags = modul.take_diagnostics();
    assert_eq!(diags.len(), 2);
    match &diags[0] {
        TolDiagnostic::Error(TolError::UseOfUndeclaredName { name, span }) => {
            assert_eq!(name, "y");
            assert_eq!(span, &(26..27));
        }
        other => panic!("unexpected diagnostic: {:?}", other),
    }
    match &diags[1] {
        TolDiagnostic::Error(TolError::NameRedeclaration { name, declared_span, redeclared_span }) => {
            assert_eq!(name, "x");
            assert_eq!(declared_span, &(0..1));
            assert_eq!(redeclared_span, &(29..30));
        }
        other => panic!("unexpected diagnostic: {:?}", other),
    }
    assert!(modul.get_symbol(0).is_some());
    assert!(modul.get_symbol(1).is_none());
}

#[test]
fn resolver_reports_whether_an_error_occurred() {
    let mut modul = parsed_module("a: = 1;\nb: = a;\n");
    let mut ctx = AnalyzerCtx::new();
    let mut resolver = NameResolver::new(&mut ctx, &mut modul);
    assert!(!resolver.run());

    let mut modul = parsed_module("a: = b;\n");
    let mut ctx = AnalyzerCtx::new();
    let mut resolver = NameResolver::new(&mut ctx, &mut modul);
    assert!(resolver.run());
}

#[test]
fn function_declarations_open_scopes_for_parameters() {
    let mut modul = Module::new(String::new());
    modul.set_diagnostics(Vec::new());
    let name = Token::new("f".to_string(), TokenKind::Identifier, 0..1);
    let p1 = Param::new(Token::new("a".to_string(), TokenKind::Identifier, 2..3), TolType::Numero, 2..10);
    let p2 = Param::new(Token::new("a".to_string(), TokenKind::Identifier, 12..13), TolType::Lutang, 12..20);
    let use_a = Expr::new(ExprKind::Identifier(Token::new("a".to_string(), TokenKind::Identifier, 25..26)), 25..26);
    let body = Expr::new_block(24..30, vec![Stmt::new_expression(25..27, use_a)]);
    let par = Stmt::new_par(0..30, name, Spanned::new(vec![p1, p2], 1..21), None, body);
    modul.set_ast(vec![par]);
    let mut analyzer = SemanticAnalyzer::new(&mut modul);
    analyzer.run();
    assert_eq!(modul.ast()[0].symbol_id(), Some(0));
    match modul.get_symbol(0).unwrap().kind() {
        SymbolKind::Function { param_types, return_type, .. } => {
            assert_eq!(param_types, &vec![TolType::Numero, TolType::Lutang]);
            assert_eq!(*return_type, TolType::Wala);
        }
        _ => panic!("expected a function symbol"),
    }
    match modul.ast()[0].kind() {
        StmtKind::FunctionDeclaration { block, .. } => match block.kind() {
            ExprKind::Block { statements } => match statements[0].kind() {
                StmtKind::Expression { expr } => assert_eq!(expr.symbol_id(), Some(1)),
                _ => panic!("expected an expression statement"),
            },
            _ => panic!("expected a block"),
        },
        _ => panic!("expected a function declaration"),
    }
    let diags = modul.take_diagnostics();
    assert_eq!(diags.len(), 1);
    match &diags[0] {
        TolDiagnostic::Error(TolError::NameRedeclaration { name, declared_span, redeclared_span }) => {
            assert_eq!(name, "a");
            assert_eq!(declared_span, &(2..10));
            assert_eq!(redeclared_span, &(12..20));
        }
        other => panic!("unexpected diagnostic: {:?}", other),
    }
}

#[test]
fn untyped_names_take_the_type_of_their_value() {
    let mut modul = checked_module("a: = 1;\nb: numero = a + 2.5;\nc: = 2.5 * a;\nd: = c;\n");
    assert_eq!(modul.get_symbol(0).unwrap().ty(), Some(TolType::Numero));
    assert_eq!(modul.get_symbol(2).unwrap().ty(), Some(TolType::Lutang));
    assert_eq!(modul.get_symbol(3).unwrap().ty(), Some(TolType::Lutang));
    assert_eq!(modul.take_diagnostics().len(), 0);
}

#[test]
fn type_errors_are_reported() {
    let mut modul = checked_module("a: = 1;\n1 = a;\ne: = (a = 2);\ne + 1;\nf: numero = (a = 3);\nk: = (1 = 2);\nk;\n");
    let diags = modul.take_diagnostics();
    let names: Vec<String> = diags
        .iter()
        .map(|d| match d {
            TolDiagnostic::Error(e) => match e {
                TolError::UnexpectedLValue { .. } => "lvalue".to_string(),
                TolError::InvalidOperandTypes { lhs_ty_str, rhs_ty_str, operator, .. } => {
                    format!("operands {} {} {}", lhs_ty_str, operator, rhs_ty_str)
                }
                TolError::InvalidAssignment { lhs_ty_str, rhs_ty_str, .. } => {
                    format!("assign {} {}", lhs_ty_str, rhs_ty_str)
                }
                TolError::UnableToInferType { span } => format!("infer {}..{}", span.start, span.end),
                other => format!("{:?}", other),
            },
        })
        .collect();
    assert_eq!(
        names,
        vec![
            "lvalue".to_string(),
            "operands wala + numero".to_string(),
            "assign numero wala".to_string(),
            "lvalue".to_string(),
            "infer 71..72".to_string(),
        ]
    );
}

#[test]
fn common_type_and_assignability() {
    let mut modul = Module::new(String::new());
    let checker = TypeChecker::new(&mut modul);
    assert_eq!(checker.common_type(&TolType::Numero, &TolType::Lutang), Some(TolType::Lutang));
    assert_eq!(checker.common_type(&TolType::Lutang, &TolType::Numero), Some(TolType::Lutang));
    assert_eq!(checker.common_type(&TolType::Wala, &TolType::Wala), Some(TolType::Wala));
    assert_eq!(checker.common_type(&TolType::Wala, &TolType::Numero), None);
    assert!(checker.check_assignable(&TolType::Numero, &TolType::Numero, 0..1).is_ok());
    assert!(checker.check_assignable(&TolType::DiAlam, &TolType::Wala, 0..1).is_ok());
    match checker.check_assignable(&TolType::Wala, &TolType::DiAlam, 3..4) {
        Err(TolDiagnostic::Error(TolError::InvalidAssignment { lhs_ty_str, rhs_ty_str, rhs_span })) => {
            assert_eq!(lhs_ty_str, "wala");
            assert_eq!(rhs_ty_str, "di_alam");
            assert_eq!(rhs_span, 3..4);
        }
        other => panic!("unexpected result: {:?}", other),
    }
}
