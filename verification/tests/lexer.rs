use tol::lexer::Lexer;
use tol::token::{Token, TokenKind};

fn lex(src: &str) -> Vec<Token> {
    let mut lexer = Lexer::new(src);
    lexer.run()
}

fn summary(tokens: &[Token]) -> Vec<(String, TokenKind, usize, usize)> {
    tokens
        .iter()
        .map(|t| (t.lexeme().to_string(), *t.kind(), t.span().start, t.span().end))
        .collect()
}

fn entry(lexeme: &str, kind: TokenKind, start: usize, end: usize) -> (String, TokenKind, usize, usize) {
    (lexeme.to_string(), kind, start, end)
}

#[test]
fn lexes_declaration_with_comment_and_inferred_semicolons() {
    let tokens = lex("x: numero = 1_000 + 2.5 -- komento ñ\ny = (x\n)\n");
    assert_eq!(
        summary(&tokens),
        vec![
            entry("x", TokenKind::Identifier, 0, 1),
            entry(":", TokenKind::Colon, 1, 2),
            entry("numero", TokenKind::Identifier, 3, 9),
            entry("=", TokenKind::Equal, 10, 11),
            entry("1_000", TokenKind::IntLiteral, 12, 17),
            entry("+", TokenKind::Plus, 18, 19),
            entry("2.5", TokenKind::FloatLiteral, 20, 23),
            entry(";", TokenKind::Semicolon, 37, 38),
            entry("y", TokenKind::Identifier, 38, 39),
            entry("=", TokenKind::Equal, 40, 41),
            entry("(", TokenKind::LParen, 42, 43),
            entry("x", TokenKind::Identifier, 43, 44),
            entry(")", TokenKind::RParen, 45, 46),
            entry(";", TokenKind::Semicolon, 46, 47),
        ]
    );
}

#[test]
fn lexes_keywords_and_identifiers() {
    let tokens = lex("kung kungdi kungwala ibalik par parx _a1");
    let kinds: Vec<TokenKind> = tokens.iter().map(|t| *t.kind()).collect();
    assert_eq!(
        kinds,
        vec![
            TokenKind::Kung,
            TokenKind::Kungdi,
            TokenKind::Kungwala,
            TokenKind::Ibalik,
            TokenKind::Par,
            TokenKind::Identifier,
            TokenKind::Identifier,
        ]
    );
}

#[test]
fn lexes_comparison_operators_greedily() {
    let tokens = lex("< <= > >= = == [ ] { } / * - ;");
    let kinds: Vec<TokenKind> = tokens.iter().map(|t| *t.kind()).collect();
    assert_eq!(
        kinds,
        vec![
            TokenKind::Lesser,
            TokenKind::LesserEq,
            TokenKind::Greater,
            TokenKind::GreaterEq,
            TokenKind::Equal,
            TokenKind::EqualEq,
            TokenKind::LSquare,
            TokenKind::RSquare,
            TokenKind::LBrace,
            TokenKind::RBrace,
            TokenKind::Slash,
            TokenKind::Star,
            TokenKind::Minus,
            TokenKind::Semicolon,
        ]
    );
    assert_eq!(tokens[1].lexeme(), "<=");
    assert_eq!(tokens[1].span(), &(2..4));
}

#[test]
fn numbers_with_underscores_and_fractions() {
    let tokens = lex("1_2+3.4_5");
    assert_eq!(
        summary(&tokens),
        vec![
            entry("1_2", TokenKind::IntLiteral, 0, 3),
            entry("+", TokenKind::Plus, 3, 4),
            entry("3.4_5", TokenKind::FloatLiteral, 4, 9),
        ]
    );
}

#[test]
fn no_semicolon_after_operator_or_inside_brackets() {
    let tokens = lex("a +\nb\n[c\n]\n");
    let kinds: Vec<TokenKind> = tokens.iter().map(|t| *t.kind()).collect();
    assert_eq!(
        kinds,
        vec![
            TokenKind::Identifier,
            TokenKind::Plus,
            TokenKind::Identifier,
            TokenKind::Semicolon,
            TokenKind::LSquare,
            TokenKind::Identifier,
            TokenKind::RSquare,
            TokenKind::Semicolon,
        ]
    );
}

#[test]
fn run_hands_over_tokens_once() {
    let mut lexer = Lexer::new("a b");
    assert_eq!(lexer.run().len(), 2);
    assert_eq!(lexer.run().len(), 0);
}

#[test]
fn token_spans_are_ordered_and_within_source() {
    let src = "ab: = (1 + 2) * 3.25 -- ï\nc\n";
    let tokens = lex(src);
    let mut last_end = 0;
    for t in &tokens {
        assert!(last_end <= t.span().start);
        assert!(t.span().start <= t.span().end);
        assert!(t.span().end <= src.len());
        if *t.kind() != TokenKind::Semicolon || t.lexeme() != ";" || &src[t.span().clone()] == ";" {
            assert_eq!(&src[t.span().clone()], t.lexeme());
        } else {
            assert_eq!(&src[t.span().clone()], "\n");
        }
        last_end = t.span().end;
    }
}
