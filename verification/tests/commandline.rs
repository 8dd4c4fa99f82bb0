use loretta::commandline::{
    dump_tree, multi_lua_title, whitespace_trivia_kind, DumpNode,
    decode_escapes, dump_value, first_positional, format_duration, glob_matches, has_flag,
    option_value, parse_args, parse_bool, parse_integer, preset_enum_to_preset_options,
    preset_from_name, string_value_text, LuaSyntaxOptionsPreset,
};
use loretta::luasyntaxoptions::LuaSyntaxOptions;

fn strings(v: &[&str]) -> Vec<String> {
    v.iter().map(|s| s.to_string()).collect()
}

#[test]
fn parse_bool_accepts_the_boolean_words_in_any_case() {
    assert_eq!(parse_bool("yes"), Ok(true));
    assert_eq!(parse_bool("TRUE"), Ok(true));
    assert_eq!(parse_bool("On"), Ok(true));
    assert_eq!(parse_bool("no"), Ok(false));
    assert_eq!(parse_bool("False"), Ok(false));
    assert_eq!(parse_bool("OFF"), Ok(false));
    assert_eq!(
        parse_bool("maybe"),
        Err("Invalid boolean value '{0}' accepted values are: yes, true, on, no, false or off"
            .to_string())
    );
}

#[test]
fn preset_names_are_read_in_any_case() {
    assert_eq!(preset_from_name("Lua51"), Some(LuaSyntaxOptionsPreset::Lua51));
    assert_eq!(preset_from_name("LUAJIT2.1"), Some(LuaSyntaxOptionsPreset::LuaJit21));
    assert_eq!(preset_from_name("alli"), Some(LuaSyntaxOptionsPreset::Alli));
    assert_eq!(preset_from_name("AllWithIntegers"), Some(LuaSyntaxOptionsPreset::Alli));
    assert_eq!(preset_from_name("lua55"), None);
    let options = preset_enum_to_preset_options(LuaSyntaxOptionsPreset::GMod);
    assert_eq!(options.syntax_options, LuaSyntaxOptions::gmod());
    assert_eq!(options.documentation_mode(), "Parse");
}

#[test]
fn flags_and_positionals_are_found() {
    let args = strings(&["-p", "all", "file.lua", "--out", "dir"]);
    assert!(has_flag(&args, &["-p", "--preset"]));
    assert!(!has_flag(&args, &["-c"]));
    assert_eq!(option_value(&args, &["--out"]), Some("dir".to_string()));
    assert_eq!(option_value(&args, &["-p"]), Some("all".to_string()));
    assert_eq!(option_value(&strings(&["x", "--out"]), &["--out"]), None);
    assert_eq!(option_value(&args, &["-q"]), None);
    assert_eq!(first_positional(&args), "all");
    assert_eq!(first_positional(&strings(&["-a", "-b"])), "");
}

#[test]
fn arguments_split_at_white_space() {
    assert_eq!(parse_args("  lex  -p all\tfile.lua \n"), strings(&["lex", "-p", "all", "file.lua"]));
    assert_eq!(parse_args("a\u{3000}b"), strings(&["a", "b"]));
    assert!(parse_args("   ").is_empty());
}

#[test]
fn wildcards_match_names() {
    assert!(glob_matches("test.lua", "*.lua"));
    assert!(glob_matches("a.lua", "?.lua"));
    assert!(!glob_matches("ab.lua", "?.lua"));
    assert!(glob_matches("anything", "*"));
    assert!(glob_matches("", "*"));
    assert!(!glob_matches("x.txt", "*.lua"));
    assert!(glob_matches("abc", "a*c"));
    assert!(!glob_matches("abcd", "a*c"));
}

#[test]
fn durations_are_written_with_padding() {
    assert_eq!(format_duration(0), "00:00:00.000000");
    assert_eq!(format_duration(1_500_000), "00:00:01.500000");
    assert_eq!(format_duration(3_723_000_042), "01:02:03.000042");
    assert_eq!(format_duration(360_000_000_000), "100:00:00.000000");
}

#[test]
fn dump_value_escapes_control_characters() {
    assert_eq!(dump_value("a\nb\t\\\0"), "a\\nb\\t\\\\\\0");
    assert_eq!(dump_value("\x07\x08\x0C\x0B\r"), "\\a\\b\\f\\v\\r");
    assert_eq!(dump_value("plain"), "plain");
}

#[test]
fn decode_escapes_reads_string_escapes() {
    assert_eq!(decode_escapes("a\\nb\\0"), "a\nb\0");
    assert_eq!(decode_escapes("\\x41\\u{48}"), "AH");
    assert_eq!(decode_escapes("\\q\\"), "q");
}

#[test]
fn string_values_strip_quotes() {
    assert_eq!(string_value_text("\"a\\tb\""), "a\tb");
    assert_eq!(string_value_text("'it''s'"), "it''s");
    assert_eq!(string_value_text("[[long]] tail]]"), "long");
    assert_eq!(string_value_text("`x`"), "x");
    assert_eq!(string_value_text("bare"), "bare");
}

#[test]
fn integer_literals_are_read_in_their_base() {
    assert_eq!(parse_integer("42"), 42);
    assert_eq!(parse_integer("0x1A"), 26);
    assert_eq!(parse_integer("0B1010"), 10);
    assert_eq!(parse_integer("0o17"), 15);
    assert_eq!(parse_integer("-9223372036854775808"), i64::MIN);
    assert_eq!(parse_integer("+7"), 7);
}

#[test]
fn tree_dumps_draw_branches() {
    let leaf = |name: &str| DumpNode {
        name: name.to_string(),
        value: None,
        children: Vec::new(),
    };
    let tree = vec![
        DumpNode {
            name: "A".to_string(),
            value: Some("1".to_string()),
            children: vec![leaf("x"), leaf("y")],
        },
        leaf("B"),
    ];
    assert_eq!(dump_tree(&tree), "Root\n├─A: 1\n│ ├─x\n│ └─y\n└─B");
    assert_eq!(dump_tree(&[]), "Root");
    assert_eq!(whitespace_trivia_kind("  "), "WhitespaceTrivia");
    assert_eq!(whitespace_trivia_kind(" \n"), "EndOfLineTrivia");
}

#[test]
fn section_titles_fill_the_width() {
    assert_eq!(multi_lua_title("Lua_5.1", 20), "===== Lua 5.1 ======");
    assert_eq!(multi_lua_title("LuaJIT_2.1_long_name", 10), "===== LuaJIT 2.1 long name ");
}
