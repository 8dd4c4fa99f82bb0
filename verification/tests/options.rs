use loretta::errors::errorcode::ErrorCode;
use loretta::errors::errorfacts::ErrorFacts;
use loretta::luaparseoptions::LuaParseOptions;
use loretta::luasyntaxoptions::LuaSyntaxOptions;

#[test]
fn is_hidden_is_false_for_every_code() {
    assert!(!ErrorFacts::is_hidden(ErrorCode::Void));
    assert!(!ErrorFacts::is_hidden(ErrorCode::Unknown));
    assert!(!ErrorFacts::is_hidden(ErrorCode::ErrInvalidStringEscape));
    assert!(!ErrorFacts::is_hidden(ErrorCode::WrnLineBreakMayAffectErrorReporting));
}

#[test]
fn validate_options_reports_an_invalid_documentation_mode() {
    let mut builder = Vec::new();
    LuaParseOptions::default_options().validate_options(&mut builder);
    assert!(builder.is_empty(), "the default Parse mode is valid");
    let options = LuaParseOptions::default_options().with_documentation_mode("None");
    let mut builder = Vec::new();
    options.validate_options(&mut builder);
    assert!(builder.is_empty(), "None is a valid mode");
    let options = LuaParseOptions::default_options().with_documentation_mode("Bogus");
    let mut builder = Vec::new();
    options.validate_options(&mut builder);
    assert_eq!(
        builder,
        vec!["LUA2000: Provided documentation mode is unsupported or invalid: 'Bogus'".to_string()]
    );
}

#[test]
fn equality_omits_the_escape_fields() {
    let base = LuaSyntaxOptions::all();
    let with_unicode = LuaSyntaxOptions {
        accept_unicode_escape: false,
        ..LuaSyntaxOptions::all()
    };
    let with_invalid = LuaSyntaxOptions {
        accept_invalid_escapes: false,
        ..LuaSyntaxOptions::all()
    };
    assert_eq!(base, with_unicode);
    assert_eq!(base, with_invalid);
    let mut set = std::collections::HashSet::new();
    set.insert(base.clone());
    assert!(set.contains(&with_unicode));
    assert!(set.contains(&with_invalid));
    let different = LuaSyntaxOptions {
        accept_goto: false,
        ..LuaSyntaxOptions::all()
    };
    assert_ne!(base, different);
    assert!(!set.contains(&different));
}

#[test]
fn preset_names_name_each_preset() {
    assert_eq!(LuaSyntaxOptions::lua51().preset_name(), Some("Lua 5.1"));
    assert_eq!(LuaSyntaxOptions::luajit21().preset_name(), Some("LuaJIT 2.1"));
    assert_eq!(LuaSyntaxOptions::gmod().preset_name(), Some("GLua"));
    assert_eq!(LuaSyntaxOptions::all().preset_name(), Some("All (without integers)"));
    assert_eq!(
        LuaSyntaxOptions::all_with_integers().preset_name(),
        Some("All (with integers)")
    );
    let custom = LuaSyntaxOptions {
        accept_goto: false,
        ..LuaSyntaxOptions::all()
    };
    assert_eq!(custom.preset_name(), None);
}

#[test]
fn display_text_of_a_preset_is_its_name() {
    assert_eq!(LuaSyntaxOptions::lua54().display_text(), "Lua 5.4");
    let custom = LuaSyntaxOptions {
        accept_goto: false,
        ..LuaSyntaxOptions::all()
    };
    let text = custom.display_text();
    assert!(text.starts_with("{ AcceptBinaryNumbers = true, "));
    assert!(text.contains("AcceptGoto = false"));
    assert!(text.ends_with(" }"));
}

#[test]
fn every_preset_has_a_name() {
    let presets = LuaSyntaxOptions::all_presets();
    assert_eq!(presets.len(), 11);
    for p in presets.iter() {
        assert!(p.preset_name().is_some());
    }
}

#[test]
fn with_syntax_options_keeps_options_that_compare_equal() {
    let base = LuaParseOptions::default_options();
    assert!(base.syntax_options.accept_unicode_escape);
    let same_but_escapes = LuaSyntaxOptions {
        accept_unicode_escape: false,
        ..base.syntax_options
    };
    let kept = base.with_syntax_options(same_but_escapes);
    assert!(kept.syntax_options.accept_unicode_escape);
    let other = LuaSyntaxOptions::lua51();
    let replaced = base.with_syntax_options(other);
    assert_eq!(replaced.syntax_options.accept_goto, other.accept_goto);
    assert!(!replaced.syntax_options.accept_goto);
}
