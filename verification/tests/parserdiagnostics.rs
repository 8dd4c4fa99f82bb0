use loretta::errors::errorcode::ErrorCode;
use loretta::errors::parserdiagnostics::{
    node_diagnostic, skip_trivia_to_optional_semicolon, sort_by_start,
};

#[test]
fn a_following_semicolon_ends_the_statement() {
    assert_eq!(skip_trivia_to_optional_semicolon("goto x;", 6), 7);
    assert_eq!(skip_trivia_to_optional_semicolon("goto x ;", 6), 8);
    assert_eq!(skip_trivia_to_optional_semicolon("goto x --c\n;", 6), 12);
    assert_eq!(skip_trivia_to_optional_semicolon("::label:: --[=[c]=]\n;", 9), 21);
    assert_eq!(skip_trivia_to_optional_semicolon("continue --c\n;", 8), 14);
}

#[test]
fn without_a_semicolon_the_statement_ends_at_its_token() {
    assert_eq!(skip_trivia_to_optional_semicolon("x = 1", 5), 5);
    assert_eq!(skip_trivia_to_optional_semicolon("x -- c\ny", 1), 1);
    assert_eq!(skip_trivia_to_optional_semicolon("x --[[ open ;", 1), 1);
    assert_eq!(skip_trivia_to_optional_semicolon("x --[==[ a ]=] b ]==] ;", 1), 23);
}

#[test]
fn sorting_orders_by_start_and_keeps_ties_in_order() {
    let ds = vec![
        node_diagnostic(ErrorCode::ErrGotoNotSupportedInLuaVersion, 5, 6),
        node_diagnostic(ErrorCode::ErrTypedLuaNotSupportedInLuaVersion, 1, 2),
        node_diagnostic(ErrorCode::ErrNonFunctionCallBeingUsedAsStatement, 5, 9),
        node_diagnostic(ErrorCode::ErrIfExpressionsNotSupportedInLuaVersion, 0, 3),
    ];
    let sorted = sort_by_start(ds);
    let got: Vec<(ErrorCode, usize, usize)> =
        sorted.iter().map(|d| (d.code, d.start, d.width)).collect();
    assert_eq!(
        got,
        vec![
            (ErrorCode::ErrIfExpressionsNotSupportedInLuaVersion, 0, 3),
            (ErrorCode::ErrTypedLuaNotSupportedInLuaVersion, 1, 1),
            (ErrorCode::ErrGotoNotSupportedInLuaVersion, 5, 1),
            (ErrorCode::ErrNonFunctionCallBeingUsedAsStatement, 5, 4),
        ]
    );
}
