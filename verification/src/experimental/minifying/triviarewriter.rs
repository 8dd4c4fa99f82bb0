//! Where minified code needs a space between two tokens.
use vstd::prelude::*;

use crate::text::str_chars;

verus! {

/// The operator symbols that matter when deciding where a space is needed.
#[derive(Debug, Clone, Copy, PartialEq, Eq, Hash, Structural)]
pub enum OperatorSymbol {
    /// `.`
    Dot,
    /// `..`
    TwoDots,
    /// `...`
    Ellipsis,
    /// `..=`
    TwoDotsEqual,
    /// `[`
    LeftBracket,
    /// `:`
    Colon,
    /// `::`
    TwoColons,
    /// `+`
    Plus,
    /// `-`
    Minus,
    /// `-=`
    MinusEqual,
    /// `*`
    Star,
    /// `*=`
    StarEqual,
    /// `/`
    Slash,
    /// `/=`
    SlashEqual,
    /// `//`
    DoubleSlash,
    /// `//=`
    DoubleSlashEqual,
    /// `^`
    Caret,
    /// `%`
    Percent,
    /// `=`
    Equal,
    /// `==`
    TwoEqual,
    /// `<`
    LessThan,
    /// `<=`
    LessThanEqual,
    /// `<<`
    DoubleLessThan,
    /// `>`
    GreaterThan,
    /// `>=`
    GreaterThanEqual,
    /// `>>`
    DoubleGreaterThan,
    /// `&`
    Ampersand,
    /// `|`
    Pipe,
    /// `~`
    Tilde,
    /// `->`
    ThinArrow,
    /// Any other operator symbol.
    Other,
}

/// The kind of a token, as far as separating it from the next one goes.
#[derive(Debug, Clone, Copy, PartialEq, Eq, Hash, Structural)]
pub enum TokenKind {
    /// The end of the file.
    Eof,
    /// A name.
    Identifier,
    /// A number.
    NumericLiteral,
    /// A string.
    StringLiteral,
    /// A keyword (`and`, `break`, `do`, ... `while`, `goto`).
    Keyword,
    /// An operator symbol.
    Operator(OperatorSymbol),
    /// An interpolated string.
    InterpolatedString,
}

/// Names, keywords and numbers run together without a space.
pub open spec fn is_word(k: TokenKind) -> bool {
    k == TokenKind::Identifier || k == TokenKind::Keyword || k == TokenKind::NumericLiteral
}

/// The operator that `k` is, if it is one.
pub open spec fn op(k: TokenKind) -> Option<OperatorSymbol> {
    match k {
        TokenKind::Operator(s) => Some(s),
        _ => None,
    }
}

/// The dots: `.`, `..`, `...` and `..=`.
pub open spec fn is_dots(s: OperatorSymbol) -> bool {
    s == OperatorSymbol::Dot || s == OperatorSymbol::TwoDots || s == OperatorSymbol::Ellipsis
        || s == OperatorSymbol::TwoDotsEqual
}

/// `=` or `==`.
pub open spec fn is_equals(s: OperatorSymbol) -> bool {
    s == OperatorSymbol::Equal || s == OperatorSymbol::TwoEqual
}

/// Two operators that would read as another token, or start a comment,
/// when written next to each other.
pub open spec fn operators_join(a: OperatorSymbol, b: OperatorSymbol) -> bool {
    ||| a == OperatorSymbol::LeftBracket && b == OperatorSymbol::LeftBracket
    ||| a == OperatorSymbol::Colon && (b == OperatorSymbol::Colon || b == OperatorSymbol::TwoColons)
    ||| (a == OperatorSymbol::Plus || a == OperatorSymbol::Minus || a == OperatorSymbol::Star
        || a == OperatorSymbol::Caret || a == OperatorSymbol::Percent || a == OperatorSymbol::TwoDots
        || a == OperatorSymbol::Equal || a == OperatorSymbol::Tilde || a == OperatorSymbol::LessThan
        || a == OperatorSymbol::GreaterThan || a == OperatorSymbol::Slash
        || a == OperatorSymbol::DoubleSlash) && is_equals(b)
    ||| a == OperatorSymbol::Minus && (b == OperatorSymbol::Minus || b == OperatorSymbol::MinusEqual
        || b == OperatorSymbol::ThinArrow || b == OperatorSymbol::GreaterThan
        || b == OperatorSymbol::GreaterThanEqual)
    ||| a == OperatorSymbol::Slash && (b == OperatorSymbol::Star || b == OperatorSymbol::StarEqual)
    ||| (a == OperatorSymbol::Slash || a == OperatorSymbol::DoubleSlash) && (b
        == OperatorSymbol::Slash || b == OperatorSymbol::DoubleSlash || b == OperatorSymbol::SlashEqual
        || b == OperatorSymbol::DoubleSlashEqual)
    ||| (a == OperatorSymbol::Dot || a == OperatorSymbol::TwoDots) && is_dots(b)
    ||| a == OperatorSymbol::LessThan && (b == OperatorSymbol::LessThan || b
        == OperatorSymbol::LessThanEqual || b == OperatorSymbol::DoubleLessThan)
    ||| a == OperatorSymbol::GreaterThan && (b == OperatorSymbol::GreaterThan || b
        == OperatorSymbol::GreaterThanEqual || b == OperatorSymbol::DoubleGreaterThan)
    ||| a == OperatorSymbol::Ampersand && b == OperatorSymbol::Ampersand
    ||| a == OperatorSymbol::Pipe && b == OperatorSymbol::Pipe
}

/// Whether a token of kind `a` followed by one of kind `b` (whose text
/// starts with `[` when `b_opens_bracket`) needs a space between them.
pub open spec fn needs_separator(a: TokenKind, b: TokenKind, b_opens_bracket: bool) -> bool {
    ||| is_word(a) && is_word(b)
    ||| a == TokenKind::NumericLiteral && op(b) is Some && is_dots(op(b)->0)
    ||| op(a) is Some && b == TokenKind::NumericLiteral && (op(a)->0 == OperatorSymbol::Dot
        || op(a)->0 == OperatorSymbol::TwoDots || op(a)->0 == OperatorSymbol::Ellipsis)
    ||| a == TokenKind::Operator(OperatorSymbol::LeftBracket) && b == TokenKind::StringLiteral
        && b_opens_bracket
    ||| op(a) is Some && op(b) is Some && operators_join(op(a)->0, op(b)->0)
}

/// Whether `b` follows `a` in one of the pairs that `operators_join` lists.
fn join(a: OperatorSymbol, b: OperatorSymbol) -> (r: bool)
    ensures
        r == operators_join(a, b),
{
    let eq = b == OperatorSymbol::Equal || b == OperatorSymbol::TwoEqual;
    match a {
        OperatorSymbol::LeftBracket => b == OperatorSymbol::LeftBracket,
        OperatorSymbol::Colon => b == OperatorSymbol::Colon || b == OperatorSymbol::TwoColons,
        OperatorSymbol::Plus | OperatorSymbol::Star | OperatorSymbol::Caret | OperatorSymbol::Percent
        | OperatorSymbol::Equal | OperatorSymbol::Tilde => eq,
        OperatorSymbol::Minus => eq || b == OperatorSymbol::Minus || b == OperatorSymbol::MinusEqual
            || b == OperatorSymbol::ThinArrow || b == OperatorSymbol::GreaterThan || b
            == OperatorSymbol::GreaterThanEqual,
        OperatorSymbol::Slash => eq || b == OperatorSymbol::Star || b == OperatorSymbol::StarEqual
            || b == OperatorSymbol::Slash || b == OperatorSymbol::DoubleSlash || b
            == OperatorSymbol::SlashEqual || b == OperatorSymbol::DoubleSlashEqual,
        OperatorSymbol::DoubleSlash => eq || b == OperatorSymbol::Slash || b
            == OperatorSymbol::DoubleSlash || b == OperatorSymbol::SlashEqual || b
            == OperatorSymbol::DoubleSlashEqual,
        OperatorSymbol::Dot => b == OperatorSymbol::Dot || b == OperatorSymbol::TwoDots || b
            == OperatorSymbol::Ellipsis || b == OperatorSymbol::TwoDotsEqual,
        OperatorSymbol::TwoDots => eq || b == OperatorSymbol::Dot || b == OperatorSymbol::TwoDots
            || b == OperatorSymbol::Ellipsis || b == OperatorSymbol::TwoDotsEqual,
        OperatorSymbol::LessThan => eq || b == OperatorSymbol::LessThan || b
            == OperatorSymbol::LessThanEqual || b == OperatorSymbol::DoubleLessThan,
        OperatorSymbol::GreaterThan => eq || b == OperatorSymbol::GreaterThan || b
            == OperatorSymbol::GreaterThanEqual || b == OperatorSymbol::DoubleGreaterThan,
        OperatorSymbol::Ampersand => b == OperatorSymbol::Ampersand,
        OperatorSymbol::Pipe => b == OperatorSymbol::Pipe,
        _ => false,
    }
}

/// Whether a token of kind `kind_a` followed by one of kind `kind_b` with
/// text `text_b` needs a space between them so that the pair reads back the
/// same: two words, a number and dots, or operators that would fuse.
pub fn requires_separator(kind_a: TokenKind, _text_a: &str, kind_b: TokenKind, text_b: &str) -> (r:
    bool)
    ensures
        r == needs_separator(kind_a, kind_b, text_b@.len() > 0 && text_b@[0] == '['),
{
    let word_a = match kind_a {
        TokenKind::Identifier | TokenKind::Keyword | TokenKind::NumericLiteral => true,
        _ => false,
    };
    let word_b = match kind_b {
        TokenKind::Identifier | TokenKind::Keyword | TokenKind::NumericLiteral => true,
        _ => false,
    };
    if word_a && word_b {
        return true;
    }
    match (kind_a, kind_b) {
        (TokenKind::NumericLiteral, TokenKind::Operator(s)) => s == OperatorSymbol::Dot || s
            == OperatorSymbol::TwoDots || s == OperatorSymbol::Ellipsis || s
            == OperatorSymbol::TwoDotsEqual,
        (TokenKind::Operator(s), TokenKind::NumericLiteral) => s == OperatorSymbol::Dot || s
            == OperatorSymbol::TwoDots || s == OperatorSymbol::Ellipsis,
        (TokenKind::Operator(OperatorSymbol::LeftBracket), TokenKind::StringLiteral) => {
            let cs = str_chars(text_b);
            cs.len() > 0 && cs[0] == '['
        },
        (TokenKind::Operator(a), TokenKind::Operator(b)) => join(a, b),
        _ => false,
    }
}

/// Two words written together read as one: a name, a keyword or a number
/// followed by a name, a keyword or a number always needs a space between
/// them, whatever the second token's text.
pub proof fn law_words_need_a_separator(a: TokenKind, b: TokenKind, b_opens_bracket: bool)
    requires
        a == TokenKind::Identifier || a == TokenKind::Keyword || a == TokenKind::NumericLiteral,
        b == TokenKind::Identifier || b == TokenKind::Keyword || b == TokenKind::NumericLiteral,
    ensures
        needs_separator(a, b, b_opens_bracket),
{
}

/// A number followed by dots needs a space (it would read as part of the
/// number), and so do two minus signs (they would start a comment) and two
/// dots followed by dots.
pub proof fn law_fusing_tokens_need_a_separator(b_opens_bracket: bool)
    ensures
        needs_separator(
            TokenKind::NumericLiteral,
            TokenKind::Operator(OperatorSymbol::TwoDots),
            b_opens_bracket,
        ),
        needs_separator(
            TokenKind::NumericLiteral,
            TokenKind::Operator(OperatorSymbol::Dot),
            b_opens_bracket,
        ),
        needs_separator(
            TokenKind::Operator(OperatorSymbol::Minus),
            TokenKind::Operator(OperatorSymbol::Minus),
            b_opens_bracket,
        ),
        needs_separator(
            TokenKind::Operator(OperatorSymbol::TwoDots),
            TokenKind::Operator(OperatorSymbol::Dot),
            b_opens_bracket,
        ),
{
}

/// Strips the trivia of a token stream, keeping a single space after a token
/// only where the next one would otherwise read differently.
///
/// It holds the stream's non-trivia tokens in source order, by kind and
/// text, with the end of the file last, and the index of the token that is
/// visited next.
pub struct TriviaRewriter {
    pub tokens: Vec<(TokenKind, String)>,
    pub index: usize,
}

impl TriviaRewriter {
    /// A rewriter over the given token stream, before its first token.
    pub fn new(tokens: Vec<(TokenKind, String)>) -> (r: Self)
        ensures
            r.tokens@ == tokens@,
            r.index == 0,
    {
        TriviaRewriter { tokens, index: 0 }
    }

    /// Visits the next token of the stream. The end of the file is left as
    /// it is (`None`) and stays next; any other token loses its trivia and
    /// gets one trailing space exactly when it needs a separator from the
    /// token after it (`Some(true)`), and the visit moves on.
    pub fn visit_token(&mut self) -> (r: Option<bool>)
        requires
            old(self).index < old(self).tokens@.len(),
            old(self).tokens@[old(self).index as int].0 != TokenKind::Eof ==> old(self).index + 1
                < old(self).tokens@.len(),
        ensures
            final(self).tokens@ == old(self).tokens@,
            old(self).tokens@[old(self).index as int].0 == TokenKind::Eof ==> r is None
                && final(self).index == old(self).index,
            old(self).tokens@[old(self).index as int].0 != TokenKind::Eof ==> r == Some(
                needs_separator(
                    old(self).tokens@[old(self).index as int].0,
                    old(self).tokens@[old(self).index + 1].0,
                    old(self).tokens@[old(self).index + 1].1@.len() > 0
                        && old(self).tokens@[old(self).index + 1].1@[0] == '[',
                ),
            ) && final(self).index == old(self).index + 1,
    {
        let i = self.index;
        let kind_a = self.tokens[i].0;
        if let TokenKind::Eof = kind_a {
            return None;
        }
        let n = self.tokens.len();
        assert(i + 1 < n);
        let kind_b = self.tokens[i + 1].0;
        let separated = requires_separator(
            kind_a,
            self.tokens[i].1.as_str(),
            kind_b,
            self.tokens[i + 1].1.as_str(),
        );
        self.index = i + 1;
        Some(separated)
    }
}

} // verus!
