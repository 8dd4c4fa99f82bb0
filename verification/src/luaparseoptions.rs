use vstd::prelude::*;

use crate::errors::errorcode::{code_number, ErrorCode};
use crate::luasyntaxoptions::{options_equivalent, LuaSyntaxOptions};
use crate::text::{push_decimal, push_str, str_chars, chars_eq, decimal_text, string_from_chars};

verus! {

/// Source parsing related options.
#[derive(Debug, Clone, PartialEq, Eq, Hash)]
pub struct LuaParseOptions {
    /// The syntax options to use when parsing.
    pub syntax_options: LuaSyntaxOptions,
    /// The feature flags (always empty by default; they have no effect).
    pub features: Vec<(String, String)>,
    /// The documentation mode (`Parse` unless replaced).
    documentation_mode: String,
}

/// The view of a list of string pairs.
pub open spec fn pairs_view(v: Seq<(String, String)>) -> Seq<(Seq<char>, Seq<char>)> {
    v.map_values(|p: (String, String)| (p.0@, p.1@))
}

/// Whether a documentation mode is one of the valid modes `None`, `Parse` and `Diagnose`.
pub open spec fn is_valid_documentation_mode(mode: Seq<char>) -> bool {
    mode == "None"@ || mode == "Parse"@ || mode == "Diagnose"@
}

/// The message reported for an invalid documentation mode.
pub open spec fn bad_documentation_mode_message(mode: Seq<char>) -> Seq<char> {
    "LUA"@ + decimal_text(code_number(ErrorCode::ErrBadDocumentationMode) as nat)
        + ": Provided documentation mode is unsupported or invalid: '"@ + mode + "'"@
}

/// A copy of a list of string pairs.
pub fn clone_pairs(v: &Vec<(String, String)>) -> (r: Vec<(String, String)>)
    ensures
        r@ == v@,
{
    let mut r: Vec<(String, String)> = Vec::new();
    let mut i: usize = 0;
    while i < v.len()
        invariant
            i <= v@.len(),
            r@ == v@.take(i as int),
        decreases v@.len() - i,
    {
        let a = v[i].0.clone();
        let b = v[i].1.clone();
        r.push((a, b));
        i = i + 1;
        proof {
            assert(v@.take(i as int) == v@.take(i - 1).push(v@[i - 1]));
        }
    }
    proof {
        assert(v@.take(v@.len() as int) == v@);
    }
    r
}

impl LuaParseOptions {
    /// The documentation mode held.
    pub closed spec fn mode_spec(&self) -> Seq<char> {
        self.documentation_mode@
    }

    /// The syntax options held.
    pub closed spec fn syntax_spec(&self) -> LuaSyntaxOptions {
        self.syntax_options
    }

    /// The feature flags held.
    pub closed spec fn features_spec(&self) -> Seq<(String, String)> {
        self.features@
    }

    /// The default parse options: the `all` syntax preset, no features, mode `Parse`.
    pub fn default_options() -> (r: Self)
        ensures
            r.syntax_spec() == crate::luasyntaxoptions::all_spec(),
            r.features_spec().len() == 0,
            r.mode_spec() == "Parse"@,
    {
        Self::new(LuaSyntaxOptions::all())
    }

    /// Creates parse options with the given syntax options, no features, mode `Parse`.
    pub fn new(syntax_options: LuaSyntaxOptions) -> (r: Self)
        ensures
            r.syntax_spec() == syntax_options,
            r.features_spec().len() == 0,
            r.mode_spec() == "Parse"@,
    {
        let mode = "Parse";
        LuaParseOptions { syntax_options, features: Vec::new(), documentation_mode: mode.to_owned() }
    }

    /// The documentation mode.
    pub fn documentation_mode(&self) -> (r: &str)
        ensures
            r@ == self.mode_spec(),
    {
        self.documentation_mode.as_str()
    }

    /// A copy of these options with the documentation mode replaced.
    pub fn with_documentation_mode(&self, documentation_mode: &str) -> (r: Self)
        ensures
            r.syntax_spec() == self.syntax_spec(),
            r.features_spec() == self.features_spec(),
            r.mode_spec() == documentation_mode@,
    {
        LuaParseOptions {
            syntax_options: self.syntax_options,
            features: clone_pairs(&self.features),
            documentation_mode: documentation_mode.to_owned(),
        }
    }

    /// The language name.
    pub fn language(&self) -> (r: &'static str)
        ensures
            r@ == "Lua"@,
    {
        "Lua"
    }

    /// Validates the options: an invalid documentation mode appends its message to
    /// `builder`; otherwise `builder` is left unchanged.
    pub fn validate_options(&self, builder: &mut Vec<String>)
        ensures
            is_valid_documentation_mode(self.mode_spec()) ==> final(builder)@ == old(builder)@,
            !is_valid_documentation_mode(self.mode_spec()) ==> {
                &&& final(builder)@.len() == old(builder)@.len() + 1
                &&& final(builder)@.take(old(builder)@.len() as int) == old(builder)@
                &&& final(builder)@.last()@ == bad_documentation_mode_message(self.mode_spec())
            },
    {
        let mode = str_chars(self.documentation_mode.as_str());
        let none_chars = str_chars("None");
        let parse_chars = str_chars("Parse");
        let diagnose_chars = str_chars("Diagnose");
        if chars_eq(mode.as_slice(), none_chars.as_slice()) || chars_eq(
            mode.as_slice(),
            parse_chars.as_slice(),
        ) || chars_eq(mode.as_slice(), diagnose_chars.as_slice()) {
            return;
        }
        let mut out: Vec<char> = Vec::new();
        push_str(&mut out, "LUA");
        let n = ErrorCode::ErrBadDocumentationMode.value();
        push_decimal(&mut out, n as u64);
        push_str(&mut out, ": Provided documentation mode is unsupported or invalid: '");
        push_str(&mut out, self.documentation_mode.as_str());
        push_str(&mut out, "'");
        let msg = string_from_chars(out.as_slice());
        builder.push(msg);
        proof {
            assert(builder@.take(old(builder)@.len() as int) =~= old(builder)@);
        }
    }

    /// A copy of these options with the features replaced.
    pub fn with_features(&self, features: Vec<(String, String)>) -> (r: Self)
        ensures
            r.syntax_spec() == self.syntax_spec(),
            r.features_spec() == features@,
            r.mode_spec() == self.mode_spec(),
    {
        LuaParseOptions {
            syntax_options: self.syntax_options,
            features,
            documentation_mode: self.documentation_mode.clone(),
        }
    }

    /// A copy of these options with the syntax options replaced; when the
    /// given options equal the current ones (an equality that leaves the
    /// escape fields out), the current ones are kept as they are.
    pub fn with_syntax_options(&self, syntax_options: LuaSyntaxOptions) -> (r: Self)
        ensures
            r.syntax_spec() == (if options_equivalent(self.syntax_spec(), syntax_options) {
                self.syntax_spec()
            } else {
                syntax_options
            }),
            r.features_spec() == self.features_spec(),
            r.mode_spec() == self.mode_spec(),
    {
        let kept = if self.syntax_options == syntax_options {
            self.syntax_options
        } else {
            syntax_options
        };
        LuaParseOptions {
            syntax_options: kept,
            features: clone_pairs(&self.features),
            documentation_mode: self.documentation_mode.clone(),
        }
    }
}

} // verus!
