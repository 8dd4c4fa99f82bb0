use loretta::experimental::minifying::triviarewriter::{OperatorSymbol, TokenKind, TriviaRewriter};

fn stream(tokens: &[(TokenKind, &str)]) -> TriviaRewriter {
    TriviaRewriter::new(tokens.iter().map(|(k, t)| (*k, t.to_string())).collect())
}

#[test]
fn rewriter_spaces_only_where_tokens_would_fuse() {
    // local x = 1 .. 2
    let mut r = stream(&[
        (TokenKind::Keyword, "local"),
        (TokenKind::Identifier, "x"),
        (TokenKind::Operator(OperatorSymbol::Equal), "="),
        (TokenKind::NumericLiteral, "1"),
        (TokenKind::Operator(OperatorSymbol::TwoDots), ".."),
        (TokenKind::NumericLiteral, "2"),
        (TokenKind::Eof, ""),
    ]);
    assert_eq!(r.visit_token(), Some(true));
    assert_eq!(r.visit_token(), Some(false));
    assert_eq!(r.visit_token(), Some(false));
    assert_eq!(r.visit_token(), Some(true));
    assert_eq!(r.visit_token(), Some(true));
    assert_eq!(r.visit_token(), Some(false));
    assert_eq!(r.index, 6);
    assert_eq!(r.visit_token(), None);
    assert_eq!(r.index, 6);
}

#[test]
fn rewriter_keeps_long_strings_apart_from_brackets() {
    let mut r = stream(&[
        (TokenKind::Identifier, "t"),
        (TokenKind::Operator(OperatorSymbol::LeftBracket), "["),
        (TokenKind::StringLiteral, "[[k]]"),
        (TokenKind::Operator(OperatorSymbol::Other), "]"),
        (TokenKind::Eof, ""),
    ]);
    assert_eq!(r.visit_token(), Some(false));
    assert_eq!(r.visit_token(), Some(true));
    assert_eq!(r.visit_token(), Some(false));
    assert_eq!(r.visit_token(), Some(false));
    assert_eq!(r.visit_token(), None);
}
