use vstd::prelude::*;

verus! {

/// Error codes for Lua diagnostics.
#[derive(Debug, Clone, Copy, PartialEq, Eq, Hash, Structural)]
pub enum ErrorCode {
    /// The code was lazily determined and does not need to be reported.
    Void,
    /// The code has yet to be determined.
    Unknown,
    /// Resource name: ERR_InvalidStringEscape
    ErrInvalidStringEscape,
    /// Resource name: ERR_UnfinishedString
    ErrUnfinishedString,
    /// Resource name: ERR_InvalidNumber
    ErrInvalidNumber,
    /// Resource name: ERR_NumericLiteralTooLarge
    ErrNumericLiteralTooLarge,
    /// Resource name: ERR_UnfinishedLongComment
    ErrUnfinishedLongComment,
    /// Resource name: ERR_ShebangNotSupportedInLuaVersion
    ErrShebangNotSupportedInLuaVersion,
    /// Resource name: ERR_BinaryNumericLiteralNotSupportedInVersion
    ErrBinaryNumericLiteralNotSupportedInVersion,
    /// Resource name: ERR_OctalNumericLiteralNotSupportedInVersion
    ErrOctalNumericLiteralNotSupportedInVersion,
    /// Resource name: ERR_HexFloatLiteralNotSupportedInVersion
    ErrHexFloatLiteralNotSupportedInVersion,
    /// Resource name: ERR_UnderscoreInNumericLiteralNotSupportedInVersion
    ErrUnderscoreInNumericLiteralNotSupportedInVersion,
    /// Resource name: ERR_CCommentsNotSupportedInVersion
    ErrCCommentsNotSupportedInVersion,
    /// Resource name: ERR_LuajitIdentifierRulesNotSupportedInVersion
    ErrLuajitIdentifierRulesNotSupportedInVersion,
    /// Resource name: ERR_BadCharacter
    ErrBadCharacter,
    /// Resource name: ERR_UnexpectedToken
    ErrUnexpectedToken,
    /// Resource name: ERR_HexStringEscapesNotSupportedInVersion
    ErrHexStringEscapesNotSupportedInVersion,
    /// Resource name: ERR_AmbiguousFunctionCallOrNewStatement
    ErrAmbiguousFunctionCallOrNewStatement,
    /// Resource name: ERR_NonFunctionCallBeingUsedAsStatement
    ErrNonFunctionCallBeingUsedAsStatement,
    /// Resource name: ERR_CannotBeAssignedTo
    ErrCannotBeAssignedTo,
    /// Resource name: ERR_DoubleOverflow
    ErrDoubleOverflow,
    /// Resource name: ERR_BitwiseOperatorsNotSupportedInVersion
    ErrBitwiseOperatorsNotSupportedInVersion,
    /// Resource name: WRN_LineBreakMayAffectErrorReporting
    WrnLineBreakMayAffectErrorReporting,
    /// Resource name: ERR_WhitespaceEscapeNotSupportedInVersion
    ErrWhitespaceEscapeNotSupportedInVersion,
    /// Resource name: ERR_UnicodeEscapeMissingOpenBrace
    ErrUnicodeEscapeMissingOpenBrace,
    /// Resource name: ERR_UnicodeEscapeMissingCloseBrace
    ErrUnicodeEscapeMissingCloseBrace,
    /// Resource name: ERR_EscapeTooLarge
    ErrEscapeTooLarge,
    /// Resource name: ERR_HexDigitExpected
    ErrHexDigitExpected,
    /// Resource name: ERR_UnicodeEscapesNotSupportedLuaInVersion
    ErrUnicodeEscapesNotSupportedLuaInVersion,
    /// Resource name: ERR_NumberSuffixNotSupportedInVersion
    ErrNumberSuffixNotSupportedInVersion,
    /// Resource name: ERR_LuajitSuffixInFloat
    ErrLuajitSuffixInFloat,
    /// Resource name: ERR_Lua51NestingInLongString
    ErrLua51NestingInLongString,
    /// Resource name: ERR_InterpolatedStringMustStartWithBacktickCharacter
    ErrInterpolatedStringMustStartWithBacktickCharacter,
    /// Resource name: ERR_UnclosedExpressionHole
    ErrUnclosedExpressionHole,
    /// Resource name: ERR_DoubleBraceInInterpolation
    ErrDoubleBraceInInterpolation,
    /// Resource name: ERR_InterpolatedStringsNotSupportedInVersion
    ErrInterpolatedStringsNotSupportedInVersion,
    /// Resource name: ERR_IdentifierExpectedKW
    ErrIdentifierExpectedKw,
    /// Resource name: ERR_IdentifierExpected
    ErrIdentifierExpected,
    /// Resource name: ERR_SemicolonExpected
    ErrSemicolonExpected,
    /// Resource name: ERR_CloseParenExpected
    ErrCloseParenExpected,
    /// Resource name: ERR_LbraceExpected
    ErrLbraceExpected,
    /// Resource name: ERR_RbraceExpected
    ErrRbraceExpected,
    /// Resource name: ERR_SyntaxError
    ErrSyntaxError,
    /// Resource name: ERR_InsufficientStack
    ErrInsufficientStack,
    /// Resource name: ERR_IfExpressionsNotSupportedInLuaVersion
    ErrIfExpressionsNotSupportedInLuaVersion,
    /// Resource name: ERR_IfExpressionConditionExpected
    ErrIfExpressionConditionExpected,
    /// Resource name: ERR_ExpressionExpected
    ErrExpressionExpected,
    /// Resource name: ERR_InvalidExpressionPart
    ErrInvalidExpressionPart,
    /// Resource name: ERR_InvalidStatement
    ErrInvalidStatement,
    /// Resource name: ERR_CompoundAssignmentNotSupportedInLuaVersion
    ErrCompoundAssignmentNotSupportedInLuaVersion,
    /// Resource name: ERR_MixingNilableAndIntersectionNotAllowed
    ErrMixingNilableAndIntersectionNotAllowed,
    /// Resource name: ERR_MixingUnionsAndIntersectionsNotAllowed
    ErrMixingUnionsAndIntersectionsNotAllowed,
    /// Resource name: ERR_TypedLuaNotSupportedInLuaVersion
    ErrTypedLuaNotSupportedInLuaVersion,
    /// Resource name: ERR_OnlyOneTableTypeIndexerIsAllowed
    ErrOnlyOneTableTypeIndexerIsAllowed,
    /// Resource name: ERR_NormalTypeParametersComeBeforePacks
    ErrNormalTypeParametersComeBeforePacks,
    /// Resource name: ERR_GotoNotSupportedInLuaVersion
    ErrGotoNotSupportedInLuaVersion,
    /// Resource name: ERR_BadDocumentationMode
    ErrBadDocumentationMode,
}

/// The numeric value of an error code.
pub open spec fn code_number(c: ErrorCode) -> int {
    match c {
        ErrorCode::Void => -2,
        ErrorCode::Unknown => -1,
        ErrorCode::ErrInvalidStringEscape => 1,
        ErrorCode::ErrUnfinishedString => 3,
        ErrorCode::ErrInvalidNumber => 4,
        ErrorCode::ErrNumericLiteralTooLarge => 5,
        ErrorCode::ErrUnfinishedLongComment => 6,
        ErrorCode::ErrShebangNotSupportedInLuaVersion => 7,
        ErrorCode::ErrBinaryNumericLiteralNotSupportedInVersion => 8,
        ErrorCode::ErrOctalNumericLiteralNotSupportedInVersion => 9,
        ErrorCode::ErrHexFloatLiteralNotSupportedInVersion => 10,
        ErrorCode::ErrUnderscoreInNumericLiteralNotSupportedInVersion => 11,
        ErrorCode::ErrCCommentsNotSupportedInVersion => 12,
        ErrorCode::ErrLuajitIdentifierRulesNotSupportedInVersion => 13,
        ErrorCode::ErrBadCharacter => 14,
        ErrorCode::ErrUnexpectedToken => 15,
        ErrorCode::ErrHexStringEscapesNotSupportedInVersion => 16,
        ErrorCode::ErrAmbiguousFunctionCallOrNewStatement => 17,
        ErrorCode::ErrNonFunctionCallBeingUsedAsStatement => 18,
        ErrorCode::ErrCannotBeAssignedTo => 19,
        ErrorCode::ErrDoubleOverflow => 20,
        ErrorCode::ErrBitwiseOperatorsNotSupportedInVersion => 21,
        ErrorCode::WrnLineBreakMayAffectErrorReporting => 22,
        ErrorCode::ErrWhitespaceEscapeNotSupportedInVersion => 23,
        ErrorCode::ErrUnicodeEscapeMissingOpenBrace => 24,
        ErrorCode::ErrUnicodeEscapeMissingCloseBrace => 25,
        ErrorCode::ErrEscapeTooLarge => 26,
        ErrorCode::ErrHexDigitExpected => 27,
        ErrorCode::ErrUnicodeEscapesNotSupportedLuaInVersion => 28,
        ErrorCode::ErrNumberSuffixNotSupportedInVersion => 30,
        ErrorCode::ErrLuajitSuffixInFloat => 31,
        ErrorCode::ErrLua51NestingInLongString => 32,
        ErrorCode::ErrInterpolatedStringMustStartWithBacktickCharacter => 33,
        ErrorCode::ErrUnclosedExpressionHole => 34,
        ErrorCode::ErrDoubleBraceInInterpolation => 35,
        ErrorCode::ErrInterpolatedStringsNotSupportedInVersion => 36,
        ErrorCode::ErrIdentifierExpectedKw => 1000,
        ErrorCode::ErrIdentifierExpected => 1001,
        ErrorCode::ErrSemicolonExpected => 1002,
        ErrorCode::ErrCloseParenExpected => 1003,
        ErrorCode::ErrLbraceExpected => 1004,
        ErrorCode::ErrRbraceExpected => 1005,
        ErrorCode::ErrSyntaxError => 1006,
        ErrorCode::ErrInsufficientStack => 1007,
        ErrorCode::ErrIfExpressionsNotSupportedInLuaVersion => 1008,
        ErrorCode::ErrIfExpressionConditionExpected => 1009,
        ErrorCode::ErrExpressionExpected => 1010,
        ErrorCode::ErrInvalidExpressionPart => 1011,
        ErrorCode::ErrInvalidStatement => 1012,
        ErrorCode::ErrCompoundAssignmentNotSupportedInLuaVersion => 1013,
        ErrorCode::ErrMixingNilableAndIntersectionNotAllowed => 1014,
        ErrorCode::ErrMixingUnionsAndIntersectionsNotAllowed => 1015,
        ErrorCode::ErrTypedLuaNotSupportedInLuaVersion => 1016,
        ErrorCode::ErrOnlyOneTableTypeIndexerIsAllowed => 1017,
        ErrorCode::ErrNormalTypeParametersComeBeforePacks => 1018,
        ErrorCode::ErrGotoNotSupportedInLuaVersion => 1019,
        ErrorCode::ErrBadDocumentationMode => 2000,
    }
}

impl ErrorCode {
    /// The numeric value of the error code.
    pub fn value(&self) -> (r: i32)
        ensures
            r == code_number(*self),
    {
        match self {
            ErrorCode::Void => -2,
            ErrorCode::Unknown => -1,
            ErrorCode::ErrInvalidStringEscape => 1,
            ErrorCode::ErrUnfinishedString => 3,
            ErrorCode::ErrInvalidNumber => 4,
            ErrorCode::ErrNumericLiteralTooLarge => 5,
            ErrorCode::ErrUnfinishedLongComment => 6,
            ErrorCode::ErrShebangNotSupportedInLuaVersion => 7,
            ErrorCode::ErrBinaryNumericLiteralNotSupportedInVersion => 8,
            ErrorCode::ErrOctalNumericLiteralNotSupportedInVersion => 9,
            ErrorCode::ErrHexFloatLiteralNotSupportedInVersion => 10,
            ErrorCode::ErrUnderscoreInNumericLiteralNotSupportedInVersion => 11,
            ErrorCode::ErrCCommentsNotSupportedInVersion => 12,
            ErrorCode::ErrLuajitIdentifierRulesNotSupportedInVersion => 13,
            ErrorCode::ErrBadCharacter => 14,
            ErrorCode::ErrUnexpectedToken => 15,
            ErrorCode::ErrHexStringEscapesNotSupportedInVersion => 16,
            ErrorCode::ErrAmbiguousFunctionCallOrNewStatement => 17,
            ErrorCode::ErrNonFunctionCallBeingUsedAsStatement => 18,
            ErrorCode::ErrCannotBeAssignedTo => 19,
            ErrorCode::ErrDoubleOverflow => 20,
            ErrorCode::ErrBitwiseOperatorsNotSupportedInVersion => 21,
            ErrorCode::WrnLineBreakMayAffectErrorReporting => 22,
            ErrorCode::ErrWhitespaceEscapeNotSupportedInVersion => 23,
            ErrorCode::ErrUnicodeEscapeMissingOpenBrace => 24,
            ErrorCode::ErrUnicodeEscapeMissingCloseBrace => 25,
            ErrorCode::ErrEscapeTooLarge => 26,
            ErrorCode::ErrHexDigitExpected => 27,
            ErrorCode::ErrUnicodeEscapesNotSupportedLuaInVersion => 28,
            ErrorCode::ErrNumberSuffixNotSupportedInVersion => 30,
            ErrorCode::ErrLuajitSuffixInFloat => 31,
            ErrorCode::ErrLua51NestingInLongString => 32,
            ErrorCode::ErrInterpolatedStringMustStartWithBacktickCharacter => 33,
            ErrorCode::ErrUnclosedExpressionHole => 34,
            ErrorCode::ErrDoubleBraceInInterpolation => 35,
            ErrorCode::ErrInterpolatedStringsNotSupportedInVersion => 36,
            ErrorCode::ErrIdentifierExpectedKw => 1000,
            ErrorCode::ErrIdentifierExpected => 1001,
            ErrorCode::ErrSemicolonExpected => 1002,
            ErrorCode::ErrCloseParenExpected => 1003,
            ErrorCode::ErrLbraceExpected => 1004,
            ErrorCode::ErrRbraceExpected => 1005,
            ErrorCode::ErrSyntaxError => 1006,
            ErrorCode::ErrInsufficientStack => 1007,
            ErrorCode::ErrIfExpressionsNotSupportedInLuaVersion => 1008,
            ErrorCode::ErrIfExpressionConditionExpected => 1009,
            ErrorCode::ErrExpressionExpected => 1010,
            ErrorCode::ErrInvalidExpressionPart => 1011,
            ErrorCode::ErrInvalidStatement => 1012,
            ErrorCode::ErrCompoundAssignmentNotSupportedInLuaVersion => 1013,
            ErrorCode::ErrMixingNilableAndIntersectionNotAllowed => 1014,
            ErrorCode::ErrMixingUnionsAndIntersectionsNotAllowed => 1015,
            ErrorCode::ErrTypedLuaNotSupportedInLuaVersion => 1016,
            ErrorCode::ErrOnlyOneTableTypeIndexerIsAllowed => 1017,
            ErrorCode::ErrNormalTypeParametersComeBeforePacks => 1018,
            ErrorCode::ErrGotoNotSupportedInLuaVersion => 1019,
            ErrorCode::ErrBadDocumentationMode => 2000,
        }
    }
}

} // verus!
