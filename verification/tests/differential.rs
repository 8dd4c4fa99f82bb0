use loretta::differential::json::{render, Json};
use loretta::differential::ops::{compute_diagnostics, diagnostics, options, preset_options};
use loretta::luasyntaxoptions::LuaSyntaxOptions;

fn text(j: &Json) -> String {
    String::from_utf8(render(j)).unwrap()
}

#[test]
fn render_writes_indented_json() {
    let j = Json::Object(vec![
        ("a".to_string(), Json::Number(1)),
        (
            "b".to_string(),
            Json::Array(vec![Json::Bool(true), Json::String("x\"".to_string())]),
        ),
    ]);
    assert_eq!(text(&j), "{\n  \"a\": 1,\n  \"b\": [\n    true,\n    \"x\\u0022\"\n  ]\n}");
}

#[test]
fn render_writes_empty_containers_on_one_line() {
    assert_eq!(text(&Json::Object(vec![])), "{}");
    assert_eq!(text(&Json::Array(vec![])), "[]");
    assert_eq!(text(&Json::Number(-42)), "-42");
    assert_eq!(text(&Json::Bool(false)), "false");
}

#[test]
fn render_escapes_strings() {
    assert_eq!(text(&Json::String("a\nb\\c".to_string())), "\"a\\nb\\\\c\"");
    assert_eq!(text(&Json::String("<&'+>".to_string())), "\"\\u003C\\u0026\\u0027\\u002B\\u003E\"");
    assert_eq!(text(&Json::String("\u{e9}\u{1}".to_string())), "\"\\u00E9\\u0001\"");
}

#[test]
fn preset_options_fall_back_to_all() {
    assert_eq!(preset_options("Lua51"), LuaSyntaxOptions::lua51());
    assert_eq!(preset_options("Luau"), LuaSyntaxOptions::luau());
    assert_eq!(preset_options("nonsense"), LuaSyntaxOptions::all());
}

#[test]
fn options_reports_the_preset_name() {
    let j = options("Lua52").unwrap();
    assert_eq!(text(&j), "{\n  \"preset\": \"Lua 5.2\"\n}");
}

#[test]
fn diagnostics_of_code_that_parses_are_empty() {
    let (d, has_errors) = compute_diagnostics("local x = 1").unwrap();
    assert!(d.is_empty());
    assert!(!has_errors);
    let j = diagnostics("local x = 1").unwrap();
    assert_eq!(text(&j), "{\n  \"diagnostics\": [],\n  \"hasErrors\": false\n}");
}

#[test]
fn diagnostics_of_code_that_does_not_parse_is_an_error() {
    let e = compute_diagnostics("local = = =").unwrap_err();
    assert!(e.starts_with("parser diagnostics mapping not available yet; full_moon errors: "));
    assert!(e.len() > "parser diagnostics mapping not available yet; full_moon errors: ".len());
    assert!(diagnostics("local = = =").is_err());
}

#[test]
fn render_writes_astral_characters_as_surrogate_pairs() {
    assert_eq!(text(&Json::String("<\u{1F600}".to_string())), "\"\\u003C\\uD83D\\uDE00\"");
    assert_eq!(text(&Json::String("\u{10000}".to_string())), "\"\\uD800\\uDC00\"");
}
