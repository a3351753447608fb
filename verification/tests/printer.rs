use tol::ast::pretty_printer::ASTPrettyPrinter;
use tol::diagnostic::error::TolError;
use tol::diagnostic::TolDiagnostic;
use tol::symbol::Symbol;
use tol::lexer::Lexer;
use tol::module::Module;
use tol::parser::Parser;
use tol::sema::analyzer_ctx::AnalyzerCtx;
use tol::token::{Token, TokenKind};
use tol::toltype::TolType;

fn parsed_module(src: &str) -> Module {
    let mut modul = Module::new(src.to_string());
    let mut tokens = Lexer::new(src).run();
    tokens.push(Token::new("<EOF>".to_string(), TokenKind::Eof, src.len()..src.len()));
    modul.set_diagnostics(Vec::new());
    let mut parser = Parser::new(tokens, &mut modul);
    parser.run();
    modul
}

#[test]
fn displays_the_ast_with_indentation() {
    let modul = parsed_module("x: numero = 1 + 2;\n3;\ny: = z;\n");
    let expected = "Name Declaration {\n    name: x\n    ty: Some(Numero)\n    rhs: Binary {\n        lhs: Integer (1)\n        rhs: Integer (2)\n        op: +\n    }\n}\nExpression Statement (Integer (3))\nName Declaration {\n    name: y\n    ty: None\n    rhs: Identifier (z)\n}\n";
    assert_eq!(modul.display_ast(), expected);
}

#[test]
fn printer_buffer_accumulates_and_indentation_returns() {
    let modul = parsed_module("1.5 * a;\n");
    let mut printer = ASTPrettyPrinter::new(modul.ast(), 2);
    printer.indent();
    assert_eq!(printer.indent, 2);
    printer.dedent();
    assert_eq!(printer.indent, 0);
    let out = printer.run();
    assert_eq!(
        out,
        "Expression Statement (Binary {\n  lhs: Float (1.5)\n  rhs: Identifier (a)\n  op: *\n})\n"
    );
    let mut buf = String::from("> ");
    printer.indent();
    printer.writeln_buf(&mut buf, "text");
    assert_eq!(buf, ">   text\n");
    printer.writeln("line");
    assert!(printer.buffer.ends_with("})\n  line\n"));
}

#[test]
fn module_keeps_symbols_statements_and_diagnostics() {
    let mut modul = parsed_module("a;\nb;\n");
    assert_eq!(modul.source_code(), "a;\nb;\n");
    assert_eq!(modul.source_code_arc().as_str(), "a;\nb;\n");
    let id0 = modul.add_symbol(Symbol::new_name("a".to_string(), 0..1, false, None));
    let id1 = modul.add_symbol(Symbol::new_name("b".to_string(), 3..4, true, Some(TolType::Lutang)));
    assert_eq!((id0, id1), (0, 1));
    assert_eq!(modul.get_symbol(1).unwrap().name(), "b");
    assert_eq!(modul.get_symbol(0).unwrap().ty(), None);
    modul.set_symbol_type(0, TolType::Numero);
    assert_eq!(modul.get_symbol(0).unwrap().ty(), Some(TolType::Numero));
    let ast = modul.take_ast();
    assert_eq!(ast.len(), 2);
    assert_eq!(modul.ast().len(), 0);
    modul.set_ast(ast);
    assert_eq!(modul.ast().len(), 2);
    modul.add_diagnostic(TolDiagnostic::new_error(TolError::UnexpectedLValue { span: 0..1 }));
    modul.add_diagnostic(TolDiagnostic::new_error(TolError::UnableToInferType { span: 3..4 }));
    let diags = modul.take_diagnostics();
    assert_eq!(diags.len(), 2);
    assert!(matches!(diags[1], TolDiagnostic::Error(TolError::UnableToInferType { .. })));
    assert_eq!(modul.take_diagnostics().len(), 0);
}

#[test]
fn type_names_read_back() {
    assert_eq!(TolType::from_str("numero", 0..6).unwrap(), TolType::Numero);
    assert_eq!(TolType::from_str(&TolType::Lutang.to_tol_str(), 0..6).unwrap(), TolType::Lutang);
    assert_eq!(TolType::Wala.to_tol_str(), "wala");
    match TolType::from_str(&TolType::Wala.to_tol_str(), 2..6) {
        Err(TolDiagnostic::Error(TolError::InvalidType { invalid_type, type_span })) => {
            assert_eq!(invalid_type, "wala");
            assert_eq!(type_span, 2..6);
        }
        other => panic!("unexpected result: {:?}", other),
    }
}

#[test]
fn scopes_bind_shadow_and_close() {
    let mut ctx = AnalyzerCtx::new();
    assert_eq!(ctx.lookup_symbol("x"), None);
    ctx.add_symbol_id("x".to_string(), 0);
    assert_eq!(ctx.lookup_symbol("x"), Some(0));
    assert_eq!(ctx.lookup_current_scope("x"), Some(0));
    ctx.enter_scope();
    assert_eq!(ctx.lookup_current_scope("x"), None);
    assert_eq!(ctx.lookup_symbol("x"), Some(0));
    ctx.add_symbol_id("x".to_string(), 5);
    ctx.add_symbol_id("y".to_string(), 6);
    assert_eq!(ctx.lookup_symbol("x"), Some(5));
    assert_eq!(ctx.lookup_symbol("y"), Some(6));
    ctx.exit_scope();
    assert_eq!(ctx.lookup_symbol("x"), Some(0));
    assert_eq!(ctx.lookup_symbol("y"), None);
}
