use loretta::errors::errorcode::ErrorCode;
use loretta::errors::lexerdiagnostics::LexerDiagnostic;
use loretta::errors::parserdiagnostics::{
    gated_syntax_diagnostics, statement_diagnostics, CompoundOperator, GatedSyntax, StatementShape,
};
use loretta::luasyntaxoptions::LuaSyntaxOptions;

fn spans(d: &[LexerDiagnostic]) -> Vec<(ErrorCode, usize, usize)> {
    d.iter().map(|x| (x.code, x.start, x.width)).collect()
}

#[test]
fn goto_without_support_gives_two_errors() {
    let shape = StatementShape::Goto { goto_start: 0, goto_end: 4, label_start: 5, label_end: 6 };
    let d = statement_diagnostics(&shape, &LuaSyntaxOptions::lua51(), "goto a;");
    assert_eq!(
        spans(&d),
        vec![
            (ErrorCode::ErrNonFunctionCallBeingUsedAsStatement, 0, 4),
            (ErrorCode::ErrNonFunctionCallBeingUsedAsStatement, 5, 2),
        ]
    );
    assert!(statement_diagnostics(&shape, &LuaSyntaxOptions::lua52(), "goto a;").is_empty());
}

#[test]
fn labels_are_gated_only_under_typed_lua() {
    let shape = StatementShape::Label { start: 0, end: 7 };
    let luau = LuaSyntaxOptions::luau();
    assert!(luau.accept_typed_lua && !luau.accept_goto);
    let d = statement_diagnostics(&shape, &luau, "::a:: ;");
    assert_eq!(spans(&d), vec![(ErrorCode::ErrGotoNotSupportedInLuaVersion, 0, 7)]);
    assert!(statement_diagnostics(&shape, &LuaSyntaxOptions::lua51(), "::a:: ;").is_empty());
}

#[test]
fn plain_compound_assignment_is_gated() {
    let plus = StatementShape::CompoundAssignment { operator: CompoundOperator::PlusEqual, start: 0, end: 6 };
    let d = statement_diagnostics(&plus, &LuaSyntaxOptions::lua51(), "x += 1 ;");
    assert_eq!(spans(&d), vec![(ErrorCode::ErrCompoundAssignmentNotSupportedInLuaVersion, 0, 8)]);
    let floor = StatementShape::CompoundAssignment {
        operator: CompoundOperator::DoubleSlashEqual,
        start: 0,
        end: 7,
    };
    assert!(statement_diagnostics(&floor, &LuaSyntaxOptions::lua51(), "x //= 1").is_empty());
    assert!(statement_diagnostics(&plus, &LuaSyntaxOptions::luau(), "x += 1 ;").is_empty());
}

#[test]
fn type_declarations_need_typed_lua() {
    let shape = StatementShape::TypeDeclaration { start: 0, end: 14 };
    let d = statement_diagnostics(&shape, &LuaSyntaxOptions::lua51(), "type A = number");
    assert_eq!(spans(&d), vec![(ErrorCode::ErrTypedLuaNotSupportedInLuaVersion, 0, 14)]);
    assert!(statement_diagnostics(&shape, &LuaSyntaxOptions::luau(), "type A = number").is_empty());
    assert!(statement_diagnostics(&StatementShape::Other, &LuaSyntaxOptions::lua51(), "x()").is_empty());
}

#[test]
fn gated_syntax_follows_the_options() {
    let lua51 = LuaSyntaxOptions::lua51();
    let luau = LuaSyntaxOptions::luau();
    let ifx = GatedSyntax::IfExpression { start: 4, end: 20 };
    assert_eq!(
        spans(&gated_syntax_diagnostics(&ifx, &lua51, "x = if a then b else c")),
        vec![(ErrorCode::ErrIfExpressionsNotSupportedInLuaVersion, 4, 16)]
    );
    assert!(gated_syntax_diagnostics(&ifx, &luau, "x = if a then b else c").is_empty());
    let band = GatedSyntax::BitwiseOperator { start: 6, end: 7 };
    assert_eq!(
        spans(&gated_syntax_diagnostics(&band, &lua51, "x = a & b")),
        vec![(ErrorCode::ErrBitwiseOperatorsNotSupportedInVersion, 6, 1)]
    );
    assert!(gated_syntax_diagnostics(&band, &LuaSyntaxOptions::lua53(), "x = a & b").is_empty());
    let typed = GatedSyntax::TypedLua { start: 7, end: 15 };
    assert_eq!(
        spans(&gated_syntax_diagnostics(&typed, &lua51, "local x: number")),
        vec![(ErrorCode::ErrTypedLuaNotSupportedInLuaVersion, 7, 8)]
    );
    let cont = GatedSyntax::Continue { start: 0, end: 8 };
    assert_eq!(
        spans(&gated_syntax_diagnostics(&cont, &lua51, "continue;")),
        vec![(ErrorCode::ErrNonFunctionCallBeingUsedAsStatement, 0, 9)]
    );
    assert!(gated_syntax_diagnostics(&cont, &luau, "continue;").is_empty());
}
