//! The syntax-kind names of the parsed tokens.
use vstd::prelude::*;

use crate::text::{push_str, str_eq, string_from_chars};

verus! {

/// Each symbol's text and its syntax-kind name.
pub open spec fn symbol_names() -> Seq<(Seq<char>, Seq<char>)> {
    seq![
        ("and"@, "AndKeyword"@),
        ("break"@, "BreakKeyword"@),
        ("do"@, "DoKeyword"@),
        ("else"@, "ElseKeyword"@),
        ("elseif"@, "ElseIfKeyword"@),
        ("end"@, "EndKeyword"@),
        ("false"@, "FalseKeyword"@),
        ("for"@, "ForKeyword"@),
        ("function"@, "FunctionKeyword"@),
        ("if"@, "IfKeyword"@),
        ("in"@, "InKeyword"@),
        ("local"@, "LocalKeyword"@),
        ("nil"@, "NilKeyword"@),
        ("not"@, "NotKeyword"@),
        ("or"@, "OrKeyword"@),
        ("repeat"@, "RepeatKeyword"@),
        ("return"@, "ReturnKeyword"@),
        ("then"@, "ThenKeyword"@),
        ("true"@, "TrueKeyword"@),
        ("until"@, "UntilKeyword"@),
        ("while"@, "WhileKeyword"@),
        ("goto"@, "GotoKeyword"@),
        ("+="@, "PlusEqualsToken"@),
        ("-="@, "MinusEqualsToken"@),
        ("*="@, "StarEqualsToken"@),
        ("/="@, "SlashEqualsToken"@),
        ("//="@, "SlashSlashEqualsToken"@),
        ("%="@, "PercentEqualsToken"@),
        ("^="@, "HatEqualsToken"@),
        ("..="@, "DotDotEqualsToken"@),
        ("&"@, "AmpersandToken"@),
        ("->"@, "MinusGreaterThanToken"@),
        ("::"@, "ColonColonToken"@),
        ("@"@, "AtToken"@),
        ("<<="@, "LessThanLessThanEqualsToken"@),
        (">>="@, "GreaterThanGreaterThanEqualsToken"@),
        ("&="@, "AmpersandEqualsToken"@),
        ("|="@, "PipeEqualsToken"@),
        ("?."@, "QuestionMarkDotToken"@),
        ("^"@, "HatToken"@),
        (":"@, "ColonToken"@),
        (","@, "CommaToken"@),
        ("."@, "DotToken"@),
        (".."@, "DotDotToken"@),
        ("..."@, "DotDotDotToken"@),
        ("="@, "EqualsToken"@),
        ("=="@, "EqualsEqualsToken"@),
        (">"@, "GreaterThanToken"@),
        (">="@, "GreaterThanEqualsToken"@),
        (">>"@, "GreaterThanGreaterThanToken"@),
        ("#"@, "HashToken"@),
        ("{"@, "OpenBraceToken"@),
        ("["@, "OpenBracketToken"@),
        ("("@, "OpenParenthesisToken"@),
        ("<"@, "LessThanToken"@),
        ("<="@, "LessThanEqualsToken"@),
        ("<<"@, "LessThanLessThanToken"@),
        ("-"@, "MinusToken"@),
        ("%"@, "PercentToken"@),
        ("|"@, "PipeToken"@),
        ("+"@, "PlusToken"@),
        ("?"@, "QuestionToken"@),
        ("}"@, "CloseBraceToken"@),
        ("]"@, "CloseBracketToken"@),
        (")"@, "CloseParenthesisToken"@),
        (";"@, "SemicolonToken"@),
        ("/"@, "SlashToken"@),
        ("//"@, "SlashSlashToken"@),
        ("*"@, "StarToken"@),
        ("~"@, "TildeToken"@),
        ("~="@, "TildeEqualsToken"@)
    ]
}

/// The name paired with `text` in the first entry of `table` that has it.
pub open spec fn lookup(table: Seq<(Seq<char>, Seq<char>)>, text: Seq<char>) -> Option<Seq<char>>
    decreases table.len(),
{
    if table.len() == 0 {
        None
    } else if table[0].0 == text {
        Some(table[0].1)
    } else {
        lookup(table.drop_first(), text)
    }
}

/// The syntax-kind name of a token, from its kind (the `Debug` text of the
/// parser's token kind) and its text.
pub open spec fn kind_name_spec(kind: Seq<char>, text: Seq<char>) -> Seq<char> {
    if kind == "Eof"@ {
        "EndOfFileToken"@
    } else if kind == "Identifier"@ {
        "IdentifierToken"@
    } else if kind == "Number"@ {
        "NumericLiteralToken"@
    } else if kind == "StringLiteral"@ {
        "StringLiteralToken"@
    } else if kind == "Symbol"@ {
        match lookup(symbol_names(), text) {
            Some(n) => n,
            None => "UNMAPPED_SYMBOL_"@ + text,
        }
    } else {
        "UNMAPPED_"@ + kind
    }
}

fn symbol_table() -> (r: Vec<(&'static str, &'static str)>)
    ensures
        r@.map_values(|p: (&'static str, &'static str)| (p.0@, p.1@)) == symbol_names(),
{
    let r = vec![
        ("and", "AndKeyword"),
        ("break", "BreakKeyword"),
        ("do", "DoKeyword"),
        ("else", "ElseKeyword"),
        ("elseif", "ElseIfKeyword"),
        ("end", "EndKeyword"),
        ("false", "FalseKeyword"),
        ("for", "ForKeyword"),
        ("function", "FunctionKeyword"),
        ("if", "IfKeyword"),
        ("in", "InKeyword"),
        ("local", "LocalKeyword"),
        ("nil", "NilKeyword"),
        ("not", "NotKeyword"),
        ("or", "OrKeyword"),
        ("repeat", "RepeatKeyword"),
        ("return", "ReturnKeyword"),
        ("then", "ThenKeyword"),
        ("true", "TrueKeyword"),
        ("until", "UntilKeyword"),
        ("while", "WhileKeyword"),
        ("goto", "GotoKeyword"),
        ("+=", "PlusEqualsToken"),
        ("-=", "MinusEqualsToken"),
        ("*=", "StarEqualsToken"),
        ("/=", "SlashEqualsToken"),
        ("//=", "SlashSlashEqualsToken"),
        ("%=", "PercentEqualsToken"),
        ("^=", "HatEqualsToken"),
        ("..=", "DotDotEqualsToken"),
        ("&", "AmpersandToken"),
        ("->", "MinusGreaterThanToken"),
        ("::", "ColonColonToken"),
        ("@", "AtToken"),
        ("<<=", "LessThanLessThanEqualsToken"),
        (">>=", "GreaterThanGreaterThanEqualsToken"),
        ("&=", "AmpersandEqualsToken"),
        ("|=", "PipeEqualsToken"),
        ("?.", "QuestionMarkDotToken"),
        ("^", "HatToken"),
        (":", "ColonToken"),
        (",", "CommaToken"),
        (".", "DotToken"),
        ("..", "DotDotToken"),
        ("...", "DotDotDotToken"),
        ("=", "EqualsToken"),
        ("==", "EqualsEqualsToken"),
        (">", "GreaterThanToken"),
        (">=", "GreaterThanEqualsToken"),
        (">>", "GreaterThanGreaterThanToken"),
        ("#", "HashToken"),
        ("{", "OpenBraceToken"),
        ("[", "OpenBracketToken"),
        ("(", "OpenParenthesisToken"),
        ("<", "LessThanToken"),
        ("<=", "LessThanEqualsToken"),
        ("<<", "LessThanLessThanToken"),
        ("-", "MinusToken"),
        ("%", "PercentToken"),
        ("|", "PipeToken"),
        ("+", "PlusToken"),
        ("?", "QuestionToken"),
        ("}", "CloseBraceToken"),
        ("]", "CloseBracketToken"),
        (")", "CloseParenthesisToken"),
        (";", "SemicolonToken"),
        ("/", "SlashToken"),
        ("//", "SlashSlashToken"),
        ("*", "StarToken"),
        ("~", "TildeToken"),
        ("~=", "TildeEqualsToken")
    ];
    proof {
        assert(r@.map_values(|p: (&'static str, &'static str)| (p.0@, p.1@)) =~= symbol_names());
    }
    r
}

fn lookup_symbol(text: &str) -> (r: Option<&'static str>)
    ensures
        match r {
            Some(n) => lookup(symbol_names(), text@) == Some(n@),
            None => lookup(symbol_names(), text@) is None,
        },
{
    let table = symbol_table();
    let ghost names = symbol_names();
    let mut i: usize = 0;
    proof {
        assert(names.skip(0) =~= names);
    }
    while i < table.len()
        invariant
            i <= table@.len(),
            table@.map_values(|p: (&'static str, &'static str)| (p.0@, p.1@)) == names,
            names == symbol_names(),
            lookup(names, text@) == lookup(names.skip(i as int), text@),
        decreases table@.len() - i,
    {
        proof {
            assert(names.skip(i as int).drop_first() =~= names.skip(i + 1));
            assert(names.skip(i as int)[0] == names[i as int]);
            assert(names[i as int] == (table@[i as int].0@, table@[i as int].1@));
        }
        if str_eq(table[i].0, text) {
            return Some(table[i].1);
        }
        i = i + 1;
    }
    proof {
        assert(names.skip(i as int) =~= Seq::<(Seq<char>, Seq<char>)>::empty());
    }
    None
}

/// The syntax-kind name of a token, from its kind (the `Debug` text of the
/// parser's token kind) and its text: the names of the end of the file,
/// names, numbers and strings, each symbol's own name, and an `UNMAPPED_`
/// name for anything else.
pub fn kind_name(kind: &str, text: &str) -> (r: String)
    ensures
        r@ == kind_name_spec(kind@, text@),
{
    if str_eq(kind, "Eof") {
        "EndOfFileToken".to_owned()
    } else if str_eq(kind, "Identifier") {
        "IdentifierToken".to_owned()
    } else if str_eq(kind, "Number") {
        "NumericLiteralToken".to_owned()
    } else if str_eq(kind, "StringLiteral") {
        "StringLiteralToken".to_owned()
    } else if str_eq(kind, "Symbol") {
        match lookup_symbol(text) {
            Some(n) => n.to_owned(),
            None => {
                let mut out: Vec<char> = Vec::new();
                push_str(&mut out, "UNMAPPED_SYMBOL_");
                push_str(&mut out, text);
                string_from_chars(&out)
            },
        }
    } else {
        let mut out: Vec<char> = Vec::new();
        push_str(&mut out, "UNMAPPED_");
        push_str(&mut out, kind);
        string_from_chars(&out)
    }
}

} // verus!
