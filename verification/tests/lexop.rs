use loretta::differential::json::{render, Json};
use loretta::differential::kindnames::kind_name;
use loretta::differential::ops::{lex, parse};

fn text(j: &Json) -> String {
    String::from_utf8(render(j)).unwrap()
}

#[test]
fn kind_names_follow_the_syntax_kinds() {
    assert_eq!(kind_name("Eof", ""), "EndOfFileToken");
    assert_eq!(kind_name("Identifier", "x"), "IdentifierToken");
    assert_eq!(kind_name("Number", "1"), "NumericLiteralToken");
    assert_eq!(kind_name("StringLiteral", "'a'"), "StringLiteralToken");
    assert_eq!(kind_name("Symbol", "elseif"), "ElseIfKeyword");
    assert_eq!(kind_name("Symbol", "goto"), "GotoKeyword");
    assert_eq!(kind_name("Symbol", "^="), "HatEqualsToken");
    assert_eq!(kind_name("Symbol", "..."), "DotDotDotToken");
    assert_eq!(kind_name("Symbol", "~="), "TildeEqualsToken");
    assert_eq!(kind_name("Symbol", "$"), "UNMAPPED_SYMBOL_$");
    assert_eq!(kind_name("InterpolatedString", "`a`"), "UNMAPPED_InterpolatedString");
}

#[test]
fn lex_lists_every_token_with_its_kind() {
    let j = lex("local x = 1").unwrap();
    let t = text(&j);
    assert!(t.contains("\"kind\": \"LocalKeyword\""));
    assert!(t.contains("\"kind\": \"IdentifierToken\""));
    assert!(t.contains("\"kind\": \"EqualsToken\""));
    assert!(t.contains("\"kind\": \"NumericLiteralToken\""));
    assert!(t.contains("\"kind\": \"EndOfFileToken\""));
    assert!(t.contains("\"fullText\": \"local \""));
    assert!(t.contains("\"count\": 5"));
    assert!(t.contains("\"roundTrip\": true"));
}

#[test]
fn lex_and_parse_report_parse_failures() {
    match lex("local = = =") {
        Err(e) => assert!(e.starts_with("parse failed: ")),
        Ok(_) => panic!("lex must fail"),
    }
    match parse("local = = =") {
        Err(e) => assert!(e.starts_with("parse failed: ")),
        Ok(_) => panic!("parse must fail"),
    }
}

#[test]
fn parse_prints_the_tree() {
    let j = parse("local x = 1").unwrap();
    assert_eq!(
        text(&j),
        "{\n  \"treeText\": \"local x = 1\",\n  \"rootKind\": \"CompilationUnit\",\n  \"hasErrors\": false\n}"
    );
}
