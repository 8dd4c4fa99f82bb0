use loretta::errors::lexerdiagnostics::lexer::lexer_diagnostics;
use loretta::experimental::minifying::namingstrategies::{is_keyword, NamingStrategies};
use loretta::experimental::numparsing::is_dec_float;
use loretta::luasyntaxoptions::LuaSyntaxOptions;
use loretta::scoping::{Scope, ScopeTree};

#[test]
fn lexer_spans_end_within_the_source() {
    let sources = [
        "`é",
        "`€{{`",
        "'abc",
        "--[[ é",
        "x = 0x1p99999 .. '\\u{110000}' .. @@@",
        "local s = [==[ unterminated",
        "a << b\n\r c",
    ];
    for source in sources {
        for options in LuaSyntaxOptions::all_presets() {
            for d in lexer_diagnostics(source, &options) {
                assert!(d.start + d.width <= source.len(), "{source:?}: {d:?}");
            }
        }
    }
}

#[test]
fn distinct_slots_get_distinct_usable_names() {
    let tree = ScopeTree {
        scopes: vec![Scope {
            containing_scope: None,
            declared_variables: vec![],
        }],
    };
    let mut seen = std::collections::HashSet::new();
    for slot in 0..3000 {
        let name = NamingStrategies::alphabetical(slot, &tree, &[0]);
        assert!(!is_keyword(&name), "{name}");
        assert!(seen.insert(name));
    }
    let mut seen = std::collections::HashSet::new();
    for slot in 0..300 {
        assert!(seen.insert(NamingStrategies::numerical(slot, &tree, &[0])));
    }
}

#[test]
fn a_decimal_float_is_found_exactly_when_there_is_a_digit() {
    for text in ["", "abc", "-", "+.", ".e", "a9", "9", "--1", "x.5y"] {
        assert_eq!(is_dec_float(text), text.bytes().any(|b| b.is_ascii_digit()), "{text}");
    }
}
