use loretta::errors::errorcode::ErrorCode;
use loretta::errors::lexerdiagnostics::lexer::lexer_diagnostics;
use loretta::errors::lexerdiagnostics::LexerDiagnostic;
use loretta::luasyntaxoptions::LuaSyntaxOptions;

fn diag(code: ErrorCode, start: usize, width: usize, arguments: Vec<&str>) -> LexerDiagnostic {
    LexerDiagnostic {
        code,
        start,
        width,
        arguments: arguments.into_iter().map(|a| a.to_string()).collect(),
        is_warning: false,
    }
}

#[test]
fn clean_code_has_no_lexer_diagnostics() {
    let d = lexer_diagnostics("local x = 1 + 2 -- comment\nprint(x)", &LuaSyntaxOptions::all());
    assert!(d.is_empty());
}

#[test]
fn a_bad_character_reports_two_errors() {
    let d = lexer_diagnostics("@", &LuaSyntaxOptions::all());
    assert_eq!(
        d,
        vec![
            diag(ErrorCode::ErrBadCharacter, 0, 1, vec!["@"]),
            diag(ErrorCode::ErrInvalidStatement, 0, 1, vec![]),
        ]
    );
}

#[test]
fn an_unfinished_long_comment_spans_to_the_end() {
    let d = lexer_diagnostics("--[[abc", &LuaSyntaxOptions::all());
    assert_eq!(d, vec![diag(ErrorCode::ErrUnfinishedLongComment, 0, 7, vec![])]);
}

#[test]
fn shift_left_is_gated_by_the_bitwise_option() {
    let d = lexer_diagnostics("a << b", &LuaSyntaxOptions::lua51());
    assert_eq!(
        d,
        vec![diag(ErrorCode::ErrBitwiseOperatorsNotSupportedInVersion, 2, 2, vec![])]
    );
    let d = lexer_diagnostics("a << b", &LuaSyntaxOptions::lua53());
    assert!(d.is_empty());
}

#[test]
fn squiggle_and_line_col_locate_a_diagnostic() {
    let source = "x = 1\ny = @";
    let d = lexer_diagnostics(source, &LuaSyntaxOptions::all());
    assert_eq!(d.len(), 2);
    assert_eq!(d[0].squiggle(source), "@");
    assert_eq!(d[0].line_col(source), (2, 5));
}

#[test]
fn lexer_diagnostics_are_the_same_on_every_run() {
    let source = "local s = '\\q' .. 0x1p99999 .. @";
    let a = lexer_diagnostics(source, &LuaSyntaxOptions::lua51());
    let b = lexer_diagnostics(source, &LuaSyntaxOptions::lua51());
    assert_eq!(a, b);
    assert!(!a.is_empty());
}

#[test]
fn a_bracket_after_comment_text_is_a_line_comment() {
    assert!(lexer_diagnostics("--a[\nx", &LuaSyntaxOptions::lua51()).is_empty());
    assert!(lexer_diagnostics("--a[[\nx", &LuaSyntaxOptions::lua51()).is_empty());
    assert!(!lexer_diagnostics("--[[\nx", &LuaSyntaxOptions::lua51()).is_empty());
}
