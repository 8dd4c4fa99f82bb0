//! The differential operations that stand on the library: options and
//! diagnostics.
use full_moon::node::Node;
use vstd::prelude::*;

use crate::differential::json::Json;
use crate::differential::kindnames::{kind_name, kind_name_spec};
use crate::luasyntaxoptions::{
    all_spec, all_with_integers_spec, display_spec, fivem_spec, gmod_spec, lua51_spec, lua52_spec,
    lua53_spec, lua54_spec, luajit20_spec, luajit21_spec, luau_spec, LuaSyntaxOptions,
};
use crate::text::{push_str, str_eq, string_from_chars};

verus! {

/// What `full_moon::parse` gives for `code`: when it parses, every token
/// of the tree in source order with the end of the file last, each as the
/// `Debug` text of its kind, its text and its text with trivia, and the
/// printed tree; otherwise the `Debug` text of its errors.
pub uninterp spec fn full_moon_parse(code: Seq<char>) -> Result<
    (Seq<(Seq<char>, Seq<char>, Seq<char>)>, Seq<char>),
    Seq<char>,
>;

/// The views of parsed tokens.
pub open spec fn tokens_view(t: Seq<(String, String, String)>) -> Seq<(Seq<char>, Seq<char>, Seq<char>)> {
    t.map_values(|x: (String, String, String)| (x.0@, x.1@, x.2@))
}

/// The view of a parse's outcome.
pub open spec fn parsed_view(r: Result<(Vec<(String, String, String)>, String), String>) -> Result<
    (Seq<(Seq<char>, Seq<char>, Seq<char>)>, Seq<char>),
    Seq<char>,
> {
    match r {
        Ok((t, p)) => Ok((tokens_view(t@), p@)),
        Err(e) => Err(e@),
    }
}

/// Parses `code` with `full_moon::parse` (the default Lua version of the
/// crate's features): the tree's tokens (kind, text, text with trivia; the
/// end of the file last) and the printed tree, or the `Debug` text of the
/// errors. The result is named, not stated: it depends on `code` alone.
#[verifier::external_body]
fn parse_code(code: &str) -> (r: Result<(Vec<(String, String, String)>, String), String>)
    ensures
        parsed_view(r) == full_moon_parse(code@),
{
    match full_moon::parse(code) {
        Ok(ast) => Ok((
            ast.tokens().chain(std::iter::once(ast.eof())).map(|t| (
                format!("{:?}", t.token().token_kind()),
                t.token().to_string(),
                t.to_string(),
            )).collect(),
            ast.to_string(),
        )),
        Err(errors) => Err(format!("{errors:?}")),
    }
}

/// The options of a preset, by its name; an unknown name gives `All`.
pub open spec fn preset_options_spec(p: Seq<char>) -> LuaSyntaxOptions {
    if p == "Lua51"@ {
        lua51_spec()
    } else if p == "Lua52"@ {
        lua52_spec()
    } else if p == "Lua53"@ {
        lua53_spec()
    } else if p == "Lua54"@ {
        lua54_spec()
    } else if p == "LuaJIT20"@ {
        luajit20_spec()
    } else if p == "LuaJIT21"@ {
        luajit21_spec()
    } else if p == "GMod"@ {
        gmod_spec()
    } else if p == "Luau"@ {
        luau_spec()
    } else if p == "FiveM"@ {
        fivem_spec()
    } else if p == "All"@ {
        all_spec()
    } else if p == "AllWithIntegers"@ {
        all_with_integers_spec()
    } else {
        all_spec()
    }
}

/// The options of a preset, by its name; an unknown name gives `All`.
pub fn preset_options(preset: &str) -> (r: LuaSyntaxOptions)
    ensures
        r == preset_options_spec(preset@),
{
    if str_eq(preset, "Lua51") {
        LuaSyntaxOptions::lua51()
    } else if str_eq(preset, "Lua52") {
        LuaSyntaxOptions::lua52()
    } else if str_eq(preset, "Lua53") {
        LuaSyntaxOptions::lua53()
    } else if str_eq(preset, "Lua54") {
        LuaSyntaxOptions::lua54()
    } else if str_eq(preset, "LuaJIT20") {
        LuaSyntaxOptions::luajit20()
    } else if str_eq(preset, "LuaJIT21") {
        LuaSyntaxOptions::luajit21()
    } else if str_eq(preset, "GMod") {
        LuaSyntaxOptions::gmod()
    } else if str_eq(preset, "Luau") {
        LuaSyntaxOptions::luau()
    } else if str_eq(preset, "FiveM") {
        LuaSyntaxOptions::fivem()
    } else if str_eq(preset, "All") {
        LuaSyntaxOptions::all()
    } else if str_eq(preset, "AllWithIntegers") {
        LuaSyntaxOptions::all_with_integers()
    } else {
        LuaSyntaxOptions::all()
    }
}

/// The text put before the parser's errors when the code does not parse.
pub open spec fn unmapped_prefix() -> Seq<char> {
    "parser diagnostics mapping not available yet; full_moon errors: "@
}

/// The diagnostics of `code` (id, severity, message) and whether it has
/// errors: none when `full_moon` parses it; an error with the parser's
/// errors otherwise.
pub fn compute_diagnostics(code: &str) -> (r: Result<(Vec<(String, String, String)>, bool), String>)
    ensures
        match full_moon_parse(code@) {
            Ok(_) => r matches Ok((d, e)) && d@.len() == 0 && !e,
            Err(errs) => r matches Err(m) && m@ == unmapped_prefix() + errs,
        },
{
    match parse_code(code) {
        Ok(_) => Ok((Vec::new(), false)),
        Err(errors) => {
            let mut out: Vec<char> = Vec::new();
            push_str(&mut out, "parser diagnostics mapping not available yet; full_moon errors: ");
            push_str(&mut out, errors.as_str());
            Err(string_from_chars(&out))
        },
    }
}

/// The `options` operation: the preset's display text under `preset`.
pub fn options(preset: &str) -> (r: Result<Json, String>)
    ensures
        r matches Ok(Json::Object(v)) && v@.len() == 1 && v@[0].0@ == "preset"@ && (v@[0].1 matches Json::String(
            s,
        ) && s@ == display_spec(preset_options_spec(preset@))),
{
    let opts = preset_options(preset);
    let key = "preset".to_owned();
    let v = vec![(key, Json::String(opts.display_text()))];
    Ok(Json::Object(v))
}

/// The `diagnostics` operation: the diagnostics and whether there are errors,
/// or the error of [`compute_diagnostics`].
pub fn diagnostics(code: &str) -> (r: Result<Json, String>)
    ensures
        match full_moon_parse(code@) {
            Ok(_) => r matches Ok(Json::Object(v)) && v@.len() == 2 && v@[0].0@ == "diagnostics"@
                && (v@[0].1 matches Json::Array(a) && a@.len() == 0) && v@[1].0@ == "hasErrors"@
                && v@[1].1 == Json::Bool(false),
            Err(errs) => r matches Err(m) && m@ == unmapped_prefix() + errs,
        },
{
    let (diagnostics, has_errors) = match compute_diagnostics(code) {
        Ok(x) => x,
        Err(e) => {
            return Err(e);
        },
    };
    let mut diags: Vec<Json> = Vec::new();
    let mut i: usize = 0;
    while i < diagnostics.len()
        invariant
            i <= diagnostics@.len(),
            diags@.len() == i,
        decreases diagnostics@.len() - i,
    {
        let d = &diagnostics[i];
        let entry = vec![
            ("id".to_owned(), Json::String(d.0.clone())),
            ("severity".to_owned(), Json::String(d.1.clone())),
            ("message".to_owned(), Json::String(d.2.clone())),
        ];
        diags.push(Json::Object(entry));
        i = i + 1;
    }
    let v = vec![
        ("diagnostics".to_owned(), Json::Array(diags)),
        ("hasErrors".to_owned(), Json::Bool(has_errors)),
    ];
    Ok(Json::Object(v))
}

/// A token's entry of the `lex` operation: its kind, its text, its text
/// with trivia, and that it is not missing.
pub open spec fn token_entry_ok(j: Json, t: (String, String, String)) -> bool {
    token_entry_view_ok(j, (t.0@, t.1@, t.2@))
}

/// A token's entry, for the views of its kind, text and text with trivia.
pub open spec fn token_entry_view_ok(j: Json, t: (Seq<char>, Seq<char>, Seq<char>)) -> bool {
    j matches Json::Object(o) && o@.len() == 4 && o@[0].0@ == "kind"@ && (o@[0].1 matches Json::String(
        k,
    ) && k@ == t.0) && o@[1].0@ == "text"@ && (o@[1].1 matches Json::String(x) && x@ == t.1)
        && o@[2].0@ == "fullText"@ && (o@[2].1 matches Json::String(f) && f@ == t.2) && o@[3].0@
        == "isMissing"@ && o@[3].1 == Json::Bool(false)
}

/// The `lex` operation's result for the tokens (kind, text, text with
/// trivia) and whether the printed tree gives back the code.
pub fn lex_result(tokens: &[(String, String, String)], round_trip: bool) -> (r: Json)
    requires
        tokens@.len() <= i64::MAX,
    ensures
        r matches Json::Object(v) && v@.len() == 3 && v@[0].0@ == "tokens"@ && (v@[0].1 matches Json::Array(
            a,
        ) && a@.len() == tokens@.len() && forall|i: int|
            0 <= i < a@.len() ==> token_entry_ok(#[trigger] a@[i], tokens@[i])) && v@[1].0@ == "count"@
            && v@[1].1 == Json::Number(tokens@.len() as i64) && v@[2].0@ == "roundTrip"@ && v@[2].1
            == Json::Bool(round_trip),
{
    let mut entries: Vec<Json> = Vec::new();
    let mut i: usize = 0;
    while i < tokens.len()
        invariant
            i <= tokens@.len(),
            entries@.len() == i,
            forall|k: int| 0 <= k < i ==> token_entry_ok(#[trigger] entries@[k], tokens@[k]),
        decreases tokens@.len() - i,
    {
        let t = &tokens[i];
        let entry = vec![
            ("kind".to_owned(), Json::String(t.0.clone())),
            ("text".to_owned(), Json::String(t.1.clone())),
            ("fullText".to_owned(), Json::String(t.2.clone())),
            ("isMissing".to_owned(), Json::Bool(false)),
        ];
        proof {
            assert(entry@[0].0@ == "kind"@);
        }
        entries.push(Json::Object(entry));
        i = i + 1;
    }
    let count = tokens.len() as i64;
    let v = vec![
        ("tokens".to_owned(), Json::Array(entries)),
        ("count".to_owned(), Json::Number(count)),
        ("roundTrip".to_owned(), Json::Bool(round_trip)),
    ];
    Json::Object(v)
}

/// The `parse` operation's result for the printed tree and whether there
/// are errors.
pub fn parse_result(tree_text: String, has_errors: bool) -> (r: Json)
    ensures
        r matches Json::Object(v) && v@.len() == 3 && v@[0].0@ == "treeText"@ && (v@[0].1 matches Json::String(
            t,
        ) && t@ == tree_text@) && v@[1].0@ == "rootKind"@ && (v@[1].1 matches Json::String(k) && k@
            == "CompilationUnit"@) && v@[2].0@ == "hasErrors"@ && v@[2].1 == Json::Bool(has_errors),
{
    let v = vec![
        ("treeText".to_owned(), Json::String(tree_text)),
        ("rootKind".to_owned(), Json::String("CompilationUnit".to_owned())),
        ("hasErrors".to_owned(), Json::Bool(has_errors)),
    ];
    Json::Object(v)
}

/// The text put before the parser's errors when the code does not parse.
pub open spec fn parse_failed_prefix() -> Seq<char> {
    "parse failed: "@
}

/// The tokens of a parse, each with its syntax-kind name in place of the
/// parser's kind.
pub open spec fn named_tokens(t: Seq<(Seq<char>, Seq<char>, Seq<char>)>) -> Seq<(Seq<char>, Seq<char>, Seq<char>)> {
    t.map_values(|x: (Seq<char>, Seq<char>, Seq<char>)| (kind_name_spec(x.0, x.1), x.1, x.2))
}

fn parse_failed(errors: &str) -> (r: String)
    ensures
        r@ == parse_failed_prefix() + errors@,
{
    let mut out: Vec<char> = Vec::new();
    push_str(&mut out, "parse failed: ");
    push_str(&mut out, errors);
    string_from_chars(&out)
}

/// The `lex` operation: every token of the parsed code, the end of the file
/// last, with its syntax-kind name, text and text with trivia, their count,
/// and whether the printed tree gives back the code; or the parser's errors.
pub fn lex(code: &str) -> (r: Result<Json, String>)
    ensures
        match full_moon_parse(code@) {
            Err(errs) => r matches Err(m) && m@ == parse_failed_prefix() + errs,
            Ok((toks, printed)) => toks.len() <= i64::MAX ==> (r matches Ok(Json::Object(v))
                && v@.len() == 3 && v@[0].0@ == "tokens"@ && (v@[0].1 matches Json::Array(a)
                && a@.len() == toks.len() && forall|i: int|
                0 <= i < a@.len() ==> token_entry_view_ok(#[trigger] a@[i], named_tokens(toks)[i]))
                && v@[1].0@ == "count"@ && v@[1].1 == Json::Number(toks.len() as i64) && v@[2].0@
                == "roundTrip"@ && v@[2].1 == Json::Bool(printed == code@)),
        },
{
    let (tokens, printed) = match parse_code(code) {
        Ok(p) => p,
        Err(errors) => {
            return Err(parse_failed(errors.as_str()));
        },
    };
    let ghost toks = tokens_view(tokens@);
    let mut named: Vec<(String, String, String)> = Vec::new();
    let mut i: usize = 0;
    while i < tokens.len()
        invariant
            i <= tokens@.len(),
            toks == tokens_view(tokens@),
            named@.len() == i,
            forall|k: int| 0 <= k < i ==> (#[trigger] named@[k]).0@ == named_tokens(toks)[k].0
                && named@[k].1@ == named_tokens(toks)[k].1 && named@[k].2@ == named_tokens(toks)[k].2,
        decreases tokens@.len() - i,
    {
        let t = &tokens[i];
        let name = kind_name(t.0.as_str(), t.1.as_str());
        named.push((name, t.1.clone(), t.2.clone()));
        i = i + 1;
    }
    if named.len() as u64 > 9223372036854775807u64 {
        return Err("too many tokens".to_owned());
    }
    let round_trip = str_eq(printed.as_str(), code);
    Ok(lex_result(&named, round_trip))
}

/// The `parse` operation: the printed tree, the root's kind and whether
/// there are errors (none, when the code parses); or the parser's errors.
pub fn parse(code: &str) -> (r: Result<Json, String>)
    ensures
        match full_moon_parse(code@) {
            Err(errs) => r matches Err(m) && m@ == parse_failed_prefix() + errs,
            Ok((_, printed)) => r matches Ok(Json::Object(v)) && v@.len() == 3 && v@[0].0@
                == "treeText"@ && (v@[0].1 matches Json::String(t) && t@ == printed) && v@[1].0@
                == "rootKind"@ && (v@[1].1 matches Json::String(k) && k@ == "CompilationUnit"@)
                && v@[2].0@ == "hasErrors"@ && v@[2].1 == Json::Bool(false),
        },
{
    let printed = match parse_code(code) {
        Ok((_, p)) => p,
        Err(errors) => {
            return Err(parse_failed(errors.as_str()));
        },
    };
    let has_errors = match compute_diagnostics(code) {
        Ok((_, e)) => e,
        Err(e) => {
            return Err(e);
        },
    };
    Ok(parse_result(printed, has_errors))
}

} // verus!
