use vstd::prelude::*;

use crate::errors::errorcode::ErrorCode;
use crate::errors::errorfacts::{severity_of, ErrorFacts};
use crate::errors::luadiagnostic::{DiagnosticSeverity, LuaDiagnostic};
use crate::luaresources::LuaResources;
use crate::text::{push_str, string_from_chars};

verus! {

/// Provides messages for Lua diagnostics.
pub struct MessageProvider;

/// The message format of an error code: its resource text, empty for the codes with none.
pub open spec fn message_format_spec(c: ErrorCode) -> Seq<char> {
    match c {
        ErrorCode::ErrInvalidStringEscape => LuaResources::ERR_INVALID_STRING_ESCAPE@,
        ErrorCode::ErrUnfinishedString => LuaResources::ERR_UNFINISHED_STRING@,
        ErrorCode::ErrInvalidNumber => LuaResources::ERR_INVALID_NUMBER@,
        ErrorCode::ErrNumericLiteralTooLarge => LuaResources::ERR_NUMERIC_LITERAL_TOO_LARGE@,
        ErrorCode::ErrUnfinishedLongComment => LuaResources::ERR_UNFINISHED_LONG_COMMENT@,
        ErrorCode::ErrShebangNotSupportedInLuaVersion => LuaResources::ERR_SHEBANG_NOT_SUPPORTED_IN_LUA_VERSION@,
        ErrorCode::ErrBinaryNumericLiteralNotSupportedInVersion => LuaResources::ERR_BINARY_NUMERIC_LITERAL_NOT_SUPPORTED_IN_VERSION@,
        ErrorCode::ErrOctalNumericLiteralNotSupportedInVersion => LuaResources::ERR_OCTAL_NUMERIC_LITERAL_NOT_SUPPORTED_IN_VERSION@,
        ErrorCode::ErrHexFloatLiteralNotSupportedInVersion => LuaResources::ERR_HEX_FLOAT_LITERAL_NOT_SUPPORTED_IN_VERSION@,
        ErrorCode::ErrUnderscoreInNumericLiteralNotSupportedInVersion => LuaResources::ERR_UNDERSCORE_IN_NUMERIC_LITERAL_NOT_SUPPORTED_IN_VERSION@,
        ErrorCode::ErrCCommentsNotSupportedInVersion => LuaResources::ERR_C_COMMENTS_NOT_SUPPORTED_IN_VERSION@,
        ErrorCode::ErrLuajitIdentifierRulesNotSupportedInVersion => LuaResources::ERR_LUAJIT_IDENTIFIER_RULES_NOT_SUPPORTED_IN_VERSION@,
        ErrorCode::ErrBadCharacter => LuaResources::ERR_BAD_CHARACTER@,
        ErrorCode::ErrUnexpectedToken => LuaResources::ERR_UNEXPECTED_TOKEN@,
        ErrorCode::ErrHexStringEscapesNotSupportedInVersion => LuaResources::ERR_HEX_STRING_ESCAPES_NOT_SUPPORTED_IN_VERSION@,
        ErrorCode::ErrAmbiguousFunctionCallOrNewStatement => LuaResources::ERR_AMBIGUOUS_FUNCTION_CALL_OR_NEW_STATEMENT@,
        ErrorCode::ErrNonFunctionCallBeingUsedAsStatement => LuaResources::ERR_NON_FUNCTION_CALL_BEING_USED_AS_STATEMENT@,
        ErrorCode::ErrCannotBeAssignedTo => LuaResources::ERR_CANNOT_BE_ASSIGNED_TO@,
        ErrorCode::ErrDoubleOverflow => LuaResources::ERR_DOUBLE_OVERFLOW@,
        ErrorCode::ErrBitwiseOperatorsNotSupportedInVersion => LuaResources::ERR_BITWISE_OPERATORS_NOT_SUPPORTED_IN_VERSION@,
        ErrorCode::WrnLineBreakMayAffectErrorReporting => LuaResources::WRN_LINE_BREAK_MAY_AFFECT_ERROR_REPORTING@,
        ErrorCode::ErrWhitespaceEscapeNotSupportedInVersion => LuaResources::ERR_WHITESPACE_ESCAPE_NOT_SUPPORTED_IN_VERSION@,
        ErrorCode::ErrUnicodeEscapeMissingOpenBrace => LuaResources::ERR_UNICODE_ESCAPE_MISSING_OPEN_BRACE@,
        ErrorCode::ErrUnicodeEscapeMissingCloseBrace => LuaResources::ERR_UNICODE_ESCAPE_MISSING_CLOSE_BRACE@,
        ErrorCode::ErrEscapeTooLarge => LuaResources::ERR_ESCAPE_TOO_LARGE@,
        ErrorCode::ErrHexDigitExpected => LuaResources::ERR_HEX_DIGIT_EXPECTED@,
        ErrorCode::ErrUnicodeEscapesNotSupportedLuaInVersion => LuaResources::ERR_UNICODE_ESCAPES_NOT_SUPPORTED_LUA_IN_VERSION@,
        ErrorCode::ErrNumberSuffixNotSupportedInVersion => LuaResources::ERR_NUMBER_SUFFIX_NOT_SUPPORTED_IN_VERSION@,
        ErrorCode::ErrLuajitSuffixInFloat => LuaResources::ERR_LUAJIT_SUFFIX_IN_FLOAT@,
        ErrorCode::ErrLua51NestingInLongString => LuaResources::ERR_LUA51_NESTING_IN_LONG_STRING@,
        ErrorCode::ErrInterpolatedStringMustStartWithBacktickCharacter => LuaResources::ERR_INTERPOLATED_STRING_MUST_START_WITH_BACKTICK_CHARACTER@,
        ErrorCode::ErrUnclosedExpressionHole => LuaResources::ERR_UNCLOSED_EXPRESSION_HOLE@,
        ErrorCode::ErrDoubleBraceInInterpolation => LuaResources::ERR_DOUBLE_BRACE_IN_INTERPOLATION@,
        ErrorCode::ErrInterpolatedStringsNotSupportedInVersion => LuaResources::ERR_INTERPOLATED_STRINGS_NOT_SUPPORTED_IN_VERSION@,
        ErrorCode::ErrIdentifierExpectedKw => LuaResources::ERR_IDENTIFIER_EXPECTED_KW@,
        ErrorCode::ErrIdentifierExpected => LuaResources::ERR_IDENTIFIER_EXPECTED@,
        ErrorCode::ErrSemicolonExpected => LuaResources::ERR_SEMICOLON_EXPECTED@,
        ErrorCode::ErrCloseParenExpected => LuaResources::ERR_CLOSE_PAREN_EXPECTED@,
        ErrorCode::ErrLbraceExpected => LuaResources::ERR_LBRACE_EXPECTED@,
        ErrorCode::ErrRbraceExpected => LuaResources::ERR_RBRACE_EXPECTED@,
        ErrorCode::ErrSyntaxError => LuaResources::ERR_SYNTAX_ERROR@,
        ErrorCode::ErrInsufficientStack => LuaResources::ERR_INSUFFICIENT_STACK@,
        ErrorCode::ErrIfExpressionsNotSupportedInLuaVersion => LuaResources::ERR_IF_EXPRESSIONS_NOT_SUPPORTED_IN_LUA_VERSION@,
        ErrorCode::ErrIfExpressionConditionExpected => LuaResources::ERR_IF_EXPRESSION_CONDITION_EXPECTED@,
        ErrorCode::ErrExpressionExpected => LuaResources::ERR_EXPRESSION_EXPECTED@,
        ErrorCode::ErrInvalidExpressionPart => LuaResources::ERR_INVALID_EXPRESSION_PART@,
        ErrorCode::ErrInvalidStatement => LuaResources::ERR_INVALID_STATEMENT@,
        ErrorCode::ErrCompoundAssignmentNotSupportedInLuaVersion => LuaResources::ERR_COMPOUND_ASSIGNMENT_NOT_SUPPORTED_IN_LUA_VERSION@,
        ErrorCode::ErrMixingNilableAndIntersectionNotAllowed => LuaResources::ERR_MIXING_NILABLE_AND_INTERSECTION_NOT_ALLOWED@,
        ErrorCode::ErrMixingUnionsAndIntersectionsNotAllowed => LuaResources::ERR_MIXING_UNIONS_AND_INTERSECTIONS_NOT_ALLOWED@,
        ErrorCode::ErrTypedLuaNotSupportedInLuaVersion => LuaResources::ERR_TYPED_LUA_NOT_SUPPORTED_IN_LUA_VERSION@,
        ErrorCode::ErrOnlyOneTableTypeIndexerIsAllowed => LuaResources::ERR_ONLY_ONE_TABLE_TYPE_INDEXER_IS_ALLOWED@,
        ErrorCode::ErrNormalTypeParametersComeBeforePacks => LuaResources::ERR_NORMAL_TYPE_PARAMETERS_COME_BEFORE_PACKS@,
        ErrorCode::ErrGotoNotSupportedInLuaVersion => LuaResources::ERR_GOTO_NOT_SUPPORTED_IN_LUA_VERSION@,
        ErrorCode::ErrBadDocumentationMode => LuaResources::ERR_BAD_DOCUMENTATION_MODE@,
        _ => ""@,
    }
}

fn message_format_str(c: ErrorCode) -> (r: &'static str)
    ensures
        r@ == message_format_spec(c),
{
    match c {
        ErrorCode::ErrInvalidStringEscape => LuaResources::ERR_INVALID_STRING_ESCAPE,
        ErrorCode::ErrUnfinishedString => LuaResources::ERR_UNFINISHED_STRING,
        ErrorCode::ErrInvalidNumber => LuaResources::ERR_INVALID_NUMBER,
        ErrorCode::ErrNumericLiteralTooLarge => LuaResources::ERR_NUMERIC_LITERAL_TOO_LARGE,
        ErrorCode::ErrUnfinishedLongComment => LuaResources::ERR_UNFINISHED_LONG_COMMENT,
        ErrorCode::ErrShebangNotSupportedInLuaVersion => LuaResources::ERR_SHEBANG_NOT_SUPPORTED_IN_LUA_VERSION,
        ErrorCode::ErrBinaryNumericLiteralNotSupportedInVersion => LuaResources::ERR_BINARY_NUMERIC_LITERAL_NOT_SUPPORTED_IN_VERSION,
        ErrorCode::ErrOctalNumericLiteralNotSupportedInVersion => LuaResources::ERR_OCTAL_NUMERIC_LITERAL_NOT_SUPPORTED_IN_VERSION,
        ErrorCode::ErrHexFloatLiteralNotSupportedInVersion => LuaResources::ERR_HEX_FLOAT_LITERAL_NOT_SUPPORTED_IN_VERSION,
        ErrorCode::ErrUnderscoreInNumericLiteralNotSupportedInVersion => LuaResources::ERR_UNDERSCORE_IN_NUMERIC_LITERAL_NOT_SUPPORTED_IN_VERSION,
        ErrorCode::ErrCCommentsNotSupportedInVersion => LuaResources::ERR_C_COMMENTS_NOT_SUPPORTED_IN_VERSION,
        ErrorCode::ErrLuajitIdentifierRulesNotSupportedInVersion => LuaResources::ERR_LUAJIT_IDENTIFIER_RULES_NOT_SUPPORTED_IN_VERSION,
        ErrorCode::ErrBadCharacter => LuaResources::ERR_BAD_CHARACTER,
        ErrorCode::ErrUnexpectedToken => LuaResources::ERR_UNEXPECTED_TOKEN,
        ErrorCode::ErrHexStringEscapesNotSupportedInVersion => LuaResources::ERR_HEX_STRING_ESCAPES_NOT_SUPPORTED_IN_VERSION,
        ErrorCode::ErrAmbiguousFunctionCallOrNewStatement => LuaResources::ERR_AMBIGUOUS_FUNCTION_CALL_OR_NEW_STATEMENT,
        ErrorCode::ErrNonFunctionCallBeingUsedAsStatement => LuaResources::ERR_NON_FUNCTION_CALL_BEING_USED_AS_STATEMENT,
        ErrorCode::ErrCannotBeAssignedTo => LuaResources::ERR_CANNOT_BE_ASSIGNED_TO,
        ErrorCode::ErrDoubleOverflow => LuaResources::ERR_DOUBLE_OVERFLOW,
        ErrorCode::ErrBitwiseOperatorsNotSupportedInVersion => LuaResources::ERR_BITWISE_OPERATORS_NOT_SUPPORTED_IN_VERSION,
        ErrorCode::WrnLineBreakMayAffectErrorReporting => LuaResources::WRN_LINE_BREAK_MAY_AFFECT_ERROR_REPORTING,
        ErrorCode::ErrWhitespaceEscapeNotSupportedInVersion => LuaResources::ERR_WHITESPACE_ESCAPE_NOT_SUPPORTED_IN_VERSION,
        ErrorCode::ErrUnicodeEscapeMissingOpenBrace => LuaResources::ERR_UNICODE_ESCAPE_MISSING_OPEN_BRACE,
        ErrorCode::ErrUnicodeEscapeMissingCloseBrace => LuaResources::ERR_UNICODE_ESCAPE_MISSING_CLOSE_BRACE,
        ErrorCode::ErrEscapeTooLarge => LuaResources::ERR_ESCAPE_TOO_LARGE,
        ErrorCode::ErrHexDigitExpected => LuaResources::ERR_HEX_DIGIT_EXPECTED,
        ErrorCode::ErrUnicodeEscapesNotSupportedLuaInVersion => LuaResources::ERR_UNICODE_ESCAPES_NOT_SUPPORTED_LUA_IN_VERSION,
        ErrorCode::ErrNumberSuffixNotSupportedInVersion => LuaResources::ERR_NUMBER_SUFFIX_NOT_SUPPORTED_IN_VERSION,
        ErrorCode::ErrLuajitSuffixInFloat => LuaResources::ERR_LUAJIT_SUFFIX_IN_FLOAT,
        ErrorCode::ErrLua51NestingInLongString => LuaResources::ERR_LUA51_NESTING_IN_LONG_STRING,
        ErrorCode::ErrInterpolatedStringMustStartWithBacktickCharacter => LuaResources::ERR_INTERPOLATED_STRING_MUST_START_WITH_BACKTICK_CHARACTER,
        ErrorCode::ErrUnclosedExpressionHole => LuaResources::ERR_UNCLOSED_EXPRESSION_HOLE,
        ErrorCode::ErrDoubleBraceInInterpolation => LuaResources::ERR_DOUBLE_BRACE_IN_INTERPOLATION,
        ErrorCode::ErrInterpolatedStringsNotSupportedInVersion => LuaResources::ERR_INTERPOLATED_STRINGS_NOT_SUPPORTED_IN_VERSION,
        ErrorCode::ErrIdentifierExpectedKw => LuaResources::ERR_IDENTIFIER_EXPECTED_KW,
        ErrorCode::ErrIdentifierExpected => LuaResources::ERR_IDENTIFIER_EXPECTED,
        ErrorCode::ErrSemicolonExpected => LuaResources::ERR_SEMICOLON_EXPECTED,
        ErrorCode::ErrCloseParenExpected => LuaResources::ERR_CLOSE_PAREN_EXPECTED,
        ErrorCode::ErrLbraceExpected => LuaResources::ERR_LBRACE_EXPECTED,
        ErrorCode::ErrRbraceExpected => LuaResources::ERR_RBRACE_EXPECTED,
        ErrorCode::ErrSyntaxError => LuaResources::ERR_SYNTAX_ERROR,
        ErrorCode::ErrInsufficientStack => LuaResources::ERR_INSUFFICIENT_STACK,
        ErrorCode::ErrIfExpressionsNotSupportedInLuaVersion => LuaResources::ERR_IF_EXPRESSIONS_NOT_SUPPORTED_IN_LUA_VERSION,
        ErrorCode::ErrIfExpressionConditionExpected => LuaResources::ERR_IF_EXPRESSION_CONDITION_EXPECTED,
        ErrorCode::ErrExpressionExpected => LuaResources::ERR_EXPRESSION_EXPECTED,
        ErrorCode::ErrInvalidExpressionPart => LuaResources::ERR_INVALID_EXPRESSION_PART,
        ErrorCode::ErrInvalidStatement => LuaResources::ERR_INVALID_STATEMENT,
        ErrorCode::ErrCompoundAssignmentNotSupportedInLuaVersion => LuaResources::ERR_COMPOUND_ASSIGNMENT_NOT_SUPPORTED_IN_LUA_VERSION,
        ErrorCode::ErrMixingNilableAndIntersectionNotAllowed => LuaResources::ERR_MIXING_NILABLE_AND_INTERSECTION_NOT_ALLOWED,
        ErrorCode::ErrMixingUnionsAndIntersectionsNotAllowed => LuaResources::ERR_MIXING_UNIONS_AND_INTERSECTIONS_NOT_ALLOWED,
        ErrorCode::ErrTypedLuaNotSupportedInLuaVersion => LuaResources::ERR_TYPED_LUA_NOT_SUPPORTED_IN_LUA_VERSION,
        ErrorCode::ErrOnlyOneTableTypeIndexerIsAllowed => LuaResources::ERR_ONLY_ONE_TABLE_TYPE_INDEXER_IS_ALLOWED,
        ErrorCode::ErrNormalTypeParametersComeBeforePacks => LuaResources::ERR_NORMAL_TYPE_PARAMETERS_COME_BEFORE_PACKS,
        ErrorCode::ErrGotoNotSupportedInLuaVersion => LuaResources::ERR_GOTO_NOT_SUPPORTED_IN_LUA_VERSION,
        ErrorCode::ErrBadDocumentationMode => LuaResources::ERR_BAD_DOCUMENTATION_MODE,
        _ => "",
    }
}

/// The title of an error code: its title resource, empty for the codes with none.
pub open spec fn title_spec(c: ErrorCode) -> Seq<char> {
    match c {
        ErrorCode::WrnLineBreakMayAffectErrorReporting => LuaResources::WRN_LINE_BREAK_MAY_AFFECT_ERROR_REPORTING_TITLE@,
        ErrorCode::ErrIfExpressionConditionExpected => LuaResources::ERR_IF_EXPRESSION_CONDITION_EXPECTED_TITLE@,
        ErrorCode::ErrMixingNilableAndIntersectionNotAllowed => LuaResources::ERR_MIXING_NILABLE_AND_INTERSECTION_NOT_ALLOWED_TITLE@,
        ErrorCode::ErrMixingUnionsAndIntersectionsNotAllowed => LuaResources::ERR_MIXING_UNIONS_AND_INTERSECTIONS_NOT_ALLOWED_TITLE@,
        _ => ""@,
    }
}

fn title_str(c: ErrorCode) -> (r: &'static str)
    ensures
        r@ == title_spec(c),
{
    match c {
        ErrorCode::WrnLineBreakMayAffectErrorReporting => LuaResources::WRN_LINE_BREAK_MAY_AFFECT_ERROR_REPORTING_TITLE,
        ErrorCode::ErrIfExpressionConditionExpected => LuaResources::ERR_IF_EXPRESSION_CONDITION_EXPECTED_TITLE,
        ErrorCode::ErrMixingNilableAndIntersectionNotAllowed => LuaResources::ERR_MIXING_NILABLE_AND_INTERSECTION_NOT_ALLOWED_TITLE,
        ErrorCode::ErrMixingUnionsAndIntersectionsNotAllowed => LuaResources::ERR_MIXING_UNIONS_AND_INTERSECTIONS_NOT_ALLOWED_TITLE,
        _ => "",
    }
}

/// The description of an error code: its description resource, empty for the codes with none.
pub open spec fn description_spec(c: ErrorCode) -> Seq<char> {
    match c {
        ErrorCode::WrnLineBreakMayAffectErrorReporting => LuaResources::WRN_LINE_BREAK_MAY_AFFECT_ERROR_REPORTING_DESCRIPTION@,
        ErrorCode::ErrIfExpressionConditionExpected => LuaResources::ERR_IF_EXPRESSION_CONDITION_EXPECTED_DESCRIPTION@,
        ErrorCode::ErrMixingNilableAndIntersectionNotAllowed => LuaResources::ERR_MIXING_NILABLE_AND_INTERSECTION_NOT_ALLOWED_DESCRIPTION@,
        ErrorCode::ErrMixingUnionsAndIntersectionsNotAllowed => LuaResources::ERR_MIXING_UNIONS_AND_INTERSECTIONS_NOT_ALLOWED_DESCRIPTION@,
        _ => ""@,
    }
}

fn description_str(c: ErrorCode) -> (r: &'static str)
    ensures
        r@ == description_spec(c),
{
    match c {
        ErrorCode::WrnLineBreakMayAffectErrorReporting => LuaResources::WRN_LINE_BREAK_MAY_AFFECT_ERROR_REPORTING_DESCRIPTION,
        ErrorCode::ErrIfExpressionConditionExpected => LuaResources::ERR_IF_EXPRESSION_CONDITION_EXPECTED_DESCRIPTION,
        ErrorCode::ErrMixingNilableAndIntersectionNotAllowed => LuaResources::ERR_MIXING_NILABLE_AND_INTERSECTION_NOT_ALLOWED_DESCRIPTION,
        ErrorCode::ErrMixingUnionsAndIntersectionsNotAllowed => LuaResources::ERR_MIXING_UNIONS_AND_INTERSECTIONS_NOT_ALLOWED_DESCRIPTION,
        _ => "",
    }
}
/// The prefix of a rendered diagnostic: `error <id>` or `warning <id>`.
pub open spec fn message_prefix_spec(id: Seq<char>, is_error: bool) -> Seq<char> {
    if is_error {
        "error "@ + id
    } else {
        "warning "@ + id
    }
}

impl MessageProvider {
    /// The code prefix for Lua diagnostics.
    pub const CODE_PREFIX: &'static str = "LUA";

    /// Creates a diagnostic for a code and its message, with the code's severity,
    /// not suppressed.
    pub fn create_diagnostic(code: ErrorCode, message: String) -> (r: LuaDiagnostic)
        ensures
            r.code == code,
            r.message == message,
            r.severity == severity_of(code),
            !r.is_suppressed,
    {
        LuaDiagnostic::new(code, message, ErrorFacts::get_severity(code), false)
    }

    /// The message prefix of a diagnostic.
    pub fn get_message_prefix(id: &str, is_error: bool) -> (r: String)
        ensures
            r@ == message_prefix_spec(id@, is_error),
    {
        let mut out: Vec<char> = Vec::new();
        if is_error {
            push_str(&mut out, "error ");
        } else {
            push_str(&mut out, "warning ");
        }
        push_str(&mut out, id);
        string_from_chars(out.as_slice())
    }

    /// The message format of an error code.
    pub fn get_message_format(code: ErrorCode) -> (r: String)
        ensures
            r@ == message_format_spec(code),
    {
        let s = message_format_str(code);
        s.to_owned()
    }

    /// The title of an error code.
    pub fn get_title(code: ErrorCode) -> (r: String)
        ensures
            r@ == title_spec(code),
    {
        let s = title_str(code);
        s.to_owned()
    }

    /// The description of an error code.
    pub fn get_description(code: ErrorCode) -> (r: String)
        ensures
            r@ == description_spec(code),
    {
        let s = description_str(code);
        s.to_owned()
    }
}

} // verus!
