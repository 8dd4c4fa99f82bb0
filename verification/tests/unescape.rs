use loretta::experimental::constantfolder::{unescape_lua_string, ConstantFolder};
use loretta::experimental::constantfoldingoptions::ConstantFoldingOptions;
use loretta::luasyntaxoptions::LuaSyntaxOptions;

#[test]
fn unescape_decodes_the_short_escapes() {
    assert_eq!(unescape_lua_string("a\\nb\\tc", false), "a\nb\tc");
    assert_eq!(unescape_lua_string("\\a\\b\\f\\r\\v", false), "\x07\x08\x0C\r\x0B");
    assert_eq!(unescape_lua_string("\\\\\\\"\\'", false), "\\\"'");
    assert_eq!(unescape_lua_string("plain", true), "plain");
    assert_eq!(unescape_lua_string("", true), "");
}

#[test]
fn unescape_keeps_a_final_backslash() {
    assert_eq!(unescape_lua_string("ab\\", false), "ab\\");
}

#[test]
fn unescape_reads_hex_escapes() {
    assert_eq!(unescape_lua_string("\\x41\\x62", false), "Ab");
    assert_eq!(unescape_lua_string("\\x4g", false), "\u{4}g");
    assert_eq!(unescape_lua_string("\\x4", false), "\u{4}");
    assert_eq!(unescape_lua_string("\\xg1", false), "g1");
    assert_eq!(unescape_lua_string("\\x", false), "");
}

#[test]
fn unescape_reads_decimal_escapes() {
    assert_eq!(unescape_lua_string("\\065\\066", false), "AB");
    assert_eq!(unescape_lua_string("\\65\\066", false), "AB");
    assert_eq!(unescape_lua_string("\\255", false), "\u{FF}");
    assert_eq!(unescape_lua_string("\\300", false), "");
    assert_eq!(unescape_lua_string("\\6x", false), "\u{6}x");
    assert_eq!(unescape_lua_string("\\65x", false), "Ax");
    assert_eq!(unescape_lua_string("\\65B", false), "AB");
    assert_eq!(unescape_lua_string("\\9", false), "\u{9}");
}

#[test]
fn unescape_reads_unicode_escapes() {
    assert_eq!(unescape_lua_string("\\u{48}i", false), "Hi");
    assert_eq!(unescape_lua_string("\\u{1F600}", false), "\u{1F600}");
    assert_eq!(unescape_lua_string("\\u{D800}", false), "\u{FFFD}");
    assert_eq!(unescape_lua_string("\\u{110000}", false), "");
    assert_eq!(unescape_lua_string("\\u{+41}", false), "A");
    assert_eq!(unescape_lua_string("\\u{zz}ok", false), "ok");
    assert_eq!(unescape_lua_string("\\u41", false), "1");
    assert_eq!(unescape_lua_string("\\u{41", false), "A");
}

#[test]
fn unescape_skips_whitespace_after_z() {
    assert_eq!(unescape_lua_string("a\\z  \n\t\x0B b", false), "ab");
}

#[test]
fn unescape_handles_invalid_escapes_by_option() {
    assert_eq!(unescape_lua_string("\\q", true), "q");
    assert_eq!(unescape_lua_string("\\q", false), "");
}

#[test]
fn folder_keeps_its_settings() {
    let folder = ConstantFolder::new(ConstantFoldingOptions::all(), LuaSyntaxOptions::lua51());
    assert!(folder.options.extract_numbers_from_strings);
    assert_eq!(folder.syntax_options, LuaSyntaxOptions::lua51());
    assert!(!ConstantFoldingOptions::default_preset().extract_numbers_from_strings);
}
