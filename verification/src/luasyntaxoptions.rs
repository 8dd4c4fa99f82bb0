use vstd::prelude::*;
use vstd::std_specs::cmp::PartialEqSpecImpl;

use crate::backtickstringtype::BacktickStringType;
use crate::continuetype::ContinueType;
use crate::integerformats::IntegerFormats;
use crate::text::{push_str, string_from_chars};

verus! {

/// The options used to adapt to the syntax of the lua flavor being parsed.
///
/// "Accept" means not generating an error when parsing, but the syntax behind the option
/// will still be parsed normally.
#[derive(Debug, Clone, Copy)]
pub struct LuaSyntaxOptions {
    /// Whether to accept binary numbers (format: /0b[10]+/).
    pub accept_binary_numbers: bool,
    /// Whether to accept C comment syntax (formats: "//..." and "/* ... */").
    pub accept_c_comment_syntax: bool,
    /// Whether to accept compound assignment syntax.
    pub accept_compound_assignment: bool,
    /// Whether to accept empty statements (lone semicolons).
    pub accept_empty_statements: bool,
    /// Whether to accept C boolean operators (&&, ||, != and !).
    pub accept_c_boolean_operators: bool,
    /// Whether to accept goto labels and statements.
    pub accept_goto: bool,
    /// Whether to accept hexadecimal escapes in strings.
    pub accept_hex_escapes_in_strings: bool,
    /// Whether to accept hexadecimal floating point literals.
    pub accept_hex_float_literals: bool,
    /// Whether to accept octal numbers (format: /0o[0-7]+/).
    pub accept_octal_numbers: bool,
    /// Whether to accept shebangs (format: "#!...").
    pub accept_shebang: bool,
    /// Whether to accept underscores in any number literals.
    pub accept_underscore_in_number_literals: bool,
    /// Whether to use LuaJIT's identifier character rules.
    pub use_lua_jit_identifier_rules: bool,
    /// Whether to accept 5.3 bitwise operators.
    pub accept_bitwise_operators: bool,
    /// Whether to accept \\z escapes.
    pub accept_whitespace_escape: bool,
    /// Whether to accept Unicode (\\u{XXX}) escapes.
    pub accept_unicode_escape: bool,
    /// The type of continue to be recognized by the parser.
    pub continue_type: ContinueType,
    /// Whether to accept Luau if expressions.
    pub accept_if_expressions: bool,
    /// Whether to support the Lua 5.1 lexer bug where invalid escapes in strings are read as the character in the escape.
    pub accept_invalid_escapes: bool,
    /// Whether to accept Lua 5.4 variable attributes.
    pub accept_local_variable_attributes: bool,
    /// Format binary numeric literals are stored as.
    pub binary_integer_format: IntegerFormats,
    /// Format octal numeric literals are stored as.
    pub octal_integer_format: IntegerFormats,
    /// Format decimal integer literals are stored as.
    pub decimal_integer_format: IntegerFormats,
    /// Format hexadecimal integer literals are stored as.
    pub hex_integer_format: IntegerFormats,
    /// Whether to accept typed lua syntax or not.
    pub accept_typed_lua: bool,
    /// Whether to accept floor division or not.
    pub accept_floor_division: bool,
    /// Whether to accept LuaJIT number suffixes or not.
    pub accept_lua_jit_number_suffixes: bool,
    /// Whether to accept nesting of [[...]].
    pub accept_nesting_of_long_strings: bool,
    /// Defines how strings with backtick delimiters will be parsed.
    pub backtick_string_type: BacktickStringType,
}

/// The comment, statement and numeric-literal gates of two option sets agree.
pub open spec fn syntax_gates_equal(a: LuaSyntaxOptions, b: LuaSyntaxOptions) -> bool {
    &&& a.accept_binary_numbers == b.accept_binary_numbers
    &&& a.accept_c_comment_syntax == b.accept_c_comment_syntax
    &&& a.accept_compound_assignment == b.accept_compound_assignment
    &&& a.accept_empty_statements == b.accept_empty_statements
    &&& a.accept_c_boolean_operators == b.accept_c_boolean_operators
    &&& a.accept_goto == b.accept_goto
    &&& a.accept_hex_escapes_in_strings == b.accept_hex_escapes_in_strings
    &&& a.accept_hex_float_literals == b.accept_hex_float_literals
    &&& a.accept_octal_numbers == b.accept_octal_numbers
}

/// The identifier, operator, escape and keyword gates of two option sets agree.
pub open spec fn escape_and_keyword_gates_equal(a: LuaSyntaxOptions, b: LuaSyntaxOptions) -> bool {
    &&& a.accept_shebang == b.accept_shebang
    &&& a.accept_underscore_in_number_literals == b.accept_underscore_in_number_literals
    &&& a.use_lua_jit_identifier_rules == b.use_lua_jit_identifier_rules
    &&& a.accept_bitwise_operators == b.accept_bitwise_operators
    &&& a.accept_whitespace_escape == b.accept_whitespace_escape
    &&& a.continue_type == b.continue_type
    &&& a.accept_if_expressions == b.accept_if_expressions
    &&& a.accept_local_variable_attributes == b.accept_local_variable_attributes
    &&& a.binary_integer_format == b.binary_integer_format
}

/// The integer formats, typed-Lua and remaining gates of two option sets agree.
pub open spec fn literal_formats_equal(a: LuaSyntaxOptions, b: LuaSyntaxOptions) -> bool {
    &&& a.octal_integer_format == b.octal_integer_format
    &&& a.decimal_integer_format == b.decimal_integer_format
    &&& a.hex_integer_format == b.hex_integer_format
    &&& a.accept_typed_lua == b.accept_typed_lua
    &&& a.accept_floor_division == b.accept_floor_division
    &&& a.accept_lua_jit_number_suffixes == b.accept_lua_jit_number_suffixes
    &&& a.accept_nesting_of_long_strings == b.accept_nesting_of_long_strings
    &&& a.backtick_string_type == b.backtick_string_type
}

/// The equality of two option sets: every field but `accept_unicode_escape` and
/// `accept_invalid_escapes`, the two options that do not affect the resulting
/// syntax tree.
pub open spec fn options_equivalent(a: LuaSyntaxOptions, b: LuaSyntaxOptions) -> bool {
    &&& syntax_gates_equal(a, b)
    &&& escape_and_keyword_gates_equal(a, b)
    &&& literal_formats_equal(a, b)
}

fn exec_syntax_gates_equal(a: &LuaSyntaxOptions, b: &LuaSyntaxOptions) -> (r: bool)
    ensures
        r == syntax_gates_equal(*a, *b),
{
    if a.accept_binary_numbers != b.accept_binary_numbers {
        return false;
    }
    if a.accept_c_comment_syntax != b.accept_c_comment_syntax {
        return false;
    }
    if a.accept_compound_assignment != b.accept_compound_assignment {
        return false;
    }
    if a.accept_empty_statements != b.accept_empty_statements {
        return false;
    }
    if a.accept_c_boolean_operators != b.accept_c_boolean_operators {
        return false;
    }
    if a.accept_goto != b.accept_goto {
        return false;
    }
    if a.accept_hex_escapes_in_strings != b.accept_hex_escapes_in_strings {
        return false;
    }
    if a.accept_hex_float_literals != b.accept_hex_float_literals {
        return false;
    }
    if a.accept_octal_numbers != b.accept_octal_numbers {
        return false;
    }
    true
}

fn exec_escape_and_keyword_gates_equal(a: &LuaSyntaxOptions, b: &LuaSyntaxOptions) -> (r: bool)
    ensures
        r == escape_and_keyword_gates_equal(*a, *b),
{
    if a.accept_shebang != b.accept_shebang {
        return false;
    }
    if a.accept_underscore_in_number_literals != b.accept_underscore_in_number_literals {
        return false;
    }
    if a.use_lua_jit_identifier_rules != b.use_lua_jit_identifier_rules {
        return false;
    }
    if a.accept_bitwise_operators != b.accept_bitwise_operators {
        return false;
    }
    if a.accept_whitespace_escape != b.accept_whitespace_escape {
        return false;
    }
    if a.continue_type != b.continue_type {
        return false;
    }
    if a.accept_if_expressions != b.accept_if_expressions {
        return false;
    }
    if a.accept_local_variable_attributes != b.accept_local_variable_attributes {
        return false;
    }
    if a.binary_integer_format != b.binary_integer_format {
        return false;
    }
    true
}

fn exec_literal_formats_equal(a: &LuaSyntaxOptions, b: &LuaSyntaxOptions) -> (r: bool)
    ensures
        r == literal_formats_equal(*a, *b),
{
    if a.octal_integer_format != b.octal_integer_format {
        return false;
    }
    if a.decimal_integer_format != b.decimal_integer_format {
        return false;
    }
    if a.hex_integer_format != b.hex_integer_format {
        return false;
    }
    if a.accept_typed_lua != b.accept_typed_lua {
        return false;
    }
    if a.accept_floor_division != b.accept_floor_division {
        return false;
    }
    if a.accept_lua_jit_number_suffixes != b.accept_lua_jit_number_suffixes {
        return false;
    }
    if a.accept_nesting_of_long_strings != b.accept_nesting_of_long_strings {
        return false;
    }
    if a.backtick_string_type != b.backtick_string_type {
        return false;
    }
    true
}

impl PartialEq for LuaSyntaxOptions {
    fn eq(&self, other: &Self) -> (r: bool) {
        exec_syntax_gates_equal(self, other) && exec_escape_and_keyword_gates_equal(self, other)
            && exec_literal_formats_equal(self, other)
    }
}

impl PartialEqSpecImpl for LuaSyntaxOptions {
    open spec fn obeys_eq_spec() -> bool {
        true
    }

    open spec fn eq_spec(&self, other: &Self) -> bool {
        options_equivalent(*self, *other)
    }
}

impl Eq for LuaSyntaxOptions {
}

/// The fields that take part in the equality, in declaration order.
pub open spec fn equality_key_spec(o: LuaSyntaxOptions) -> ((bool, bool, bool, bool, bool, bool, bool, bool, bool, bool, bool, bool), (bool, bool, ContinueType, bool, bool, IntegerFormats, IntegerFormats, IntegerFormats, IntegerFormats, bool, bool, bool), (bool, BacktickStringType)) {
    ((o.accept_binary_numbers, o.accept_c_comment_syntax, o.accept_compound_assignment, o.accept_empty_statements, o.accept_c_boolean_operators, o.accept_goto, o.accept_hex_escapes_in_strings, o.accept_hex_float_literals, o.accept_octal_numbers, o.accept_shebang, o.accept_underscore_in_number_literals, o.use_lua_jit_identifier_rules), (o.accept_bitwise_operators, o.accept_whitespace_escape, o.continue_type, o.accept_if_expressions, o.accept_local_variable_attributes, o.binary_integer_format, o.octal_integer_format, o.decimal_integer_format, o.hex_integer_format, o.accept_typed_lua, o.accept_floor_division, o.accept_lua_jit_number_suffixes), (o.accept_nesting_of_long_strings, o.backtick_string_type))
}

impl core::hash::Hash for LuaSyntaxOptions {
    /// Feeds the fields that take part in the equality to the hasher, one by
    /// one in declaration order (a tuple hashes its elements in order, and
    /// adds nothing of its own), through std's `Hash` of `bool` and of the
    /// derived impls of the enums.
    #[verifier::external_body]
    fn hash<H: core::hash::Hasher>(&self, state: &mut H) {
        ((self.accept_binary_numbers, self.accept_c_comment_syntax, self.accept_compound_assignment,
        self.accept_empty_statements, self.accept_c_boolean_operators, self.accept_goto,
        self.accept_hex_escapes_in_strings, self.accept_hex_float_literals, self.accept_octal_numbers,
        self.accept_shebang, self.accept_underscore_in_number_literals,
        self.use_lua_jit_identifier_rules), (self.accept_bitwise_operators,
        self.accept_whitespace_escape, self.continue_type, self.accept_if_expressions,
        self.accept_local_variable_attributes, self.binary_integer_format, self.octal_integer_format,
        self.decimal_integer_format, self.hex_integer_format, self.accept_typed_lua,
        self.accept_floor_division, self.accept_lua_jit_number_suffixes), (
        self.accept_nesting_of_long_strings, self.backtick_string_type)).hash(state);
    }
}

/// Two options have the same equality key exactly when they are equal, so
/// equal options hash alike.
pub proof fn law_equality_key_matches_equality(a: LuaSyntaxOptions, b: LuaSyntaxOptions)
    ensures
        equality_key_spec(a) == equality_key_spec(b) <==> options_equivalent(a, b),
{
    if equality_key_spec(a) == equality_key_spec(b) {
        lemma_equal_keys(a, b);
    }
    if options_equivalent(a, b) {
        lemma_equivalent_keys(a, b);
    }
}

proof fn lemma_equal_keys(a: LuaSyntaxOptions, b: LuaSyntaxOptions)
    requires
        equality_key_spec(a) == equality_key_spec(b),
    ensures
        options_equivalent(a, b),
{
    let ka = equality_key_spec(a);
    let kb = equality_key_spec(b);
    assert(ka.0 == kb.0);
    assert(ka.1 == kb.1);
    assert(ka.2 == kb.2);
}

proof fn lemma_equivalent_keys(a: LuaSyntaxOptions, b: LuaSyntaxOptions)
    requires
        options_equivalent(a, b),
    ensures
        equality_key_spec(a) == equality_key_spec(b),
{
}

/// The field values of Lua 5.1 preset
pub open spec fn lua51_spec() -> LuaSyntaxOptions {
    LuaSyntaxOptions {
        accept_binary_numbers: false,
        accept_c_comment_syntax: false,
        accept_compound_assignment: false,
        accept_empty_statements: false,
        accept_c_boolean_operators: false,
        accept_goto: false,
        accept_hex_escapes_in_strings: false,
        accept_hex_float_literals: false,
        accept_octal_numbers: false,
        accept_shebang: true,
        accept_underscore_in_number_literals: false,
        use_lua_jit_identifier_rules: false,
        accept_bitwise_operators: false,
        accept_whitespace_escape: false,
        accept_unicode_escape: false,
        continue_type: ContinueType::Disabled,
        accept_if_expressions: false,
        accept_invalid_escapes: true,
        accept_local_variable_attributes: false,
        binary_integer_format: IntegerFormats::NotSupported,
        octal_integer_format: IntegerFormats::NotSupported,
        decimal_integer_format: IntegerFormats::NotSupported,
        hex_integer_format: IntegerFormats::NotSupported,
        accept_typed_lua: false,
        accept_floor_division: false,
        accept_lua_jit_number_suffixes: false,
        accept_nesting_of_long_strings: false,
        backtick_string_type: BacktickStringType::Disabled,
    }
}

/// The field values of Lua 5.2 preset
pub open spec fn lua52_spec() -> LuaSyntaxOptions {
    LuaSyntaxOptions {
        accept_binary_numbers: false,
        accept_c_comment_syntax: false,
        accept_compound_assignment: false,
        accept_empty_statements: true,
        accept_c_boolean_operators: false,
        accept_goto: true,
        accept_hex_escapes_in_strings: true,
        accept_hex_float_literals: true,
        accept_octal_numbers: false,
        accept_shebang: true,
        accept_underscore_in_number_literals: false,
        use_lua_jit_identifier_rules: false,
        accept_bitwise_operators: false,
        accept_whitespace_escape: true,
        accept_unicode_escape: false,
        continue_type: ContinueType::Disabled,
        accept_if_expressions: false,
        accept_invalid_escapes: false,
        accept_local_variable_attributes: false,
        binary_integer_format: IntegerFormats::NotSupported,
        octal_integer_format: IntegerFormats::NotSupported,
        decimal_integer_format: IntegerFormats::NotSupported,
        hex_integer_format: IntegerFormats::NotSupported,
        accept_typed_lua: false,
        accept_floor_division: false,
        accept_lua_jit_number_suffixes: false,
        accept_nesting_of_long_strings: true,
        backtick_string_type: BacktickStringType::Disabled,
    }
}

/// The field values of Lua 5.3 preset
pub open spec fn lua53_spec() -> LuaSyntaxOptions {
    LuaSyntaxOptions {
        accept_binary_numbers: false,
        accept_c_comment_syntax: false,
        accept_compound_assignment: false,
        accept_empty_statements: true,
        accept_c_boolean_operators: false,
        accept_goto: true,
        accept_hex_escapes_in_strings: true,
        accept_hex_float_literals: true,
        accept_octal_numbers: false,
        accept_shebang: true,
        accept_underscore_in_number_literals: false,
        use_lua_jit_identifier_rules: false,
        accept_bitwise_operators: true,
        accept_whitespace_escape: true,
        accept_unicode_escape: true,
        continue_type: ContinueType::Disabled,
        accept_if_expressions: false,
        accept_invalid_escapes: false,
        accept_local_variable_attributes: false,
        binary_integer_format: IntegerFormats::NotSupported,
        octal_integer_format: IntegerFormats::NotSupported,
        decimal_integer_format: IntegerFormats::Int64,
        hex_integer_format: IntegerFormats::Int64,
        accept_typed_lua: false,
        accept_floor_division: true,
        accept_lua_jit_number_suffixes: false,
        accept_nesting_of_long_strings: true,
        backtick_string_type: BacktickStringType::Disabled,
    }
}

/// The field values of Lua 5.4 preset
pub open spec fn lua54_spec() -> LuaSyntaxOptions {
    LuaSyntaxOptions {
        accept_binary_numbers: false,
        accept_c_comment_syntax: false,
        accept_compound_assignment: false,
        accept_empty_statements: true,
        accept_c_boolean_operators: false,
        accept_goto: true,
        accept_hex_escapes_in_strings: true,
        accept_hex_float_literals: true,
        accept_octal_numbers: false,
        accept_shebang: true,
        accept_underscore_in_number_literals: false,
        use_lua_jit_identifier_rules: false,
        accept_bitwise_operators: true,
        accept_whitespace_escape: true,
        accept_unicode_escape: true,
        continue_type: ContinueType::Disabled,
        accept_if_expressions: false,
        accept_invalid_escapes: false,
        accept_local_variable_attributes: true,
        binary_integer_format: IntegerFormats::NotSupported,
        octal_integer_format: IntegerFormats::NotSupported,
        decimal_integer_format: IntegerFormats::Int64,
        hex_integer_format: IntegerFormats::Int64,
        accept_typed_lua: false,
        accept_floor_division: true,
        accept_lua_jit_number_suffixes: false,
        accept_nesting_of_long_strings: true,
        backtick_string_type: BacktickStringType::Disabled,
    }
}

/// The field values of LuaJIT 2.0 preset
pub open spec fn luajit20_spec() -> LuaSyntaxOptions {
    LuaSyntaxOptions {
        accept_binary_numbers: false,
        accept_c_comment_syntax: false,
        accept_compound_assignment: false,
        accept_empty_statements: false,
        accept_c_boolean_operators: false,
        accept_goto: true,
        accept_hex_escapes_in_strings: true,
        accept_hex_float_literals: true,
        accept_octal_numbers: false,
        accept_shebang: true,
        accept_underscore_in_number_literals: false,
        use_lua_jit_identifier_rules: true,
        accept_bitwise_operators: false,
        accept_whitespace_escape: true,
        accept_unicode_escape: false,
        continue_type: ContinueType::Disabled,
        accept_if_expressions: false,
        accept_invalid_escapes: false,
        accept_local_variable_attributes: false,
        binary_integer_format: IntegerFormats::NotSupported,
        octal_integer_format: IntegerFormats::NotSupported,
        decimal_integer_format: IntegerFormats::NotSupported,
        hex_integer_format: IntegerFormats::NotSupported,
        accept_typed_lua: false,
        accept_floor_division: false,
        accept_lua_jit_number_suffixes: true,
        accept_nesting_of_long_strings: true,
        backtick_string_type: BacktickStringType::Disabled,
    }
}

/// The field values of LuaJIT 2.1-beta3 preset
pub open spec fn luajit21_spec() -> LuaSyntaxOptions {
    LuaSyntaxOptions {
        accept_binary_numbers: true,
        accept_c_comment_syntax: false,
        accept_compound_assignment: false,
        accept_empty_statements: false,
        accept_c_boolean_operators: false,
        accept_goto: true,
        accept_hex_escapes_in_strings: true,
        accept_hex_float_literals: true,
        accept_octal_numbers: false,
        accept_shebang: true,
        accept_underscore_in_number_literals: false,
        use_lua_jit_identifier_rules: true,
        accept_bitwise_operators: false,
        accept_whitespace_escape: true,
        accept_unicode_escape: true,
        continue_type: ContinueType::Disabled,
        accept_if_expressions: false,
        accept_invalid_escapes: false,
        accept_local_variable_attributes: false,
        binary_integer_format: IntegerFormats::NotSupported,
        octal_integer_format: IntegerFormats::NotSupported,
        decimal_integer_format: IntegerFormats::NotSupported,
        hex_integer_format: IntegerFormats::NotSupported,
        accept_typed_lua: false,
        accept_floor_division: false,
        accept_lua_jit_number_suffixes: true,
        accept_nesting_of_long_strings: true,
        backtick_string_type: BacktickStringType::Disabled,
    }
}

/// The field values of GLua preset
pub open spec fn gmod_spec() -> LuaSyntaxOptions {
    LuaSyntaxOptions {
        accept_binary_numbers: false,
        accept_c_comment_syntax: true,
        accept_compound_assignment: false,
        accept_empty_statements: false,
        accept_c_boolean_operators: true,
        accept_goto: true,
        accept_hex_escapes_in_strings: true,
        accept_hex_float_literals: true,
        accept_octal_numbers: false,
        accept_shebang: true,
        accept_underscore_in_number_literals: false,
        use_lua_jit_identifier_rules: true,
        accept_bitwise_operators: false,
        accept_whitespace_escape: true,
        accept_unicode_escape: false,
        continue_type: ContinueType::Keyword,
        accept_if_expressions: false,
        accept_invalid_escapes: false,
        accept_local_variable_attributes: false,
        binary_integer_format: IntegerFormats::NotSupported,
        octal_integer_format: IntegerFormats::NotSupported,
        decimal_integer_format: IntegerFormats::NotSupported,
        hex_integer_format: IntegerFormats::NotSupported,
        accept_typed_lua: false,
        accept_floor_division: false,
        accept_lua_jit_number_suffixes: true,
        accept_nesting_of_long_strings: true,
        backtick_string_type: BacktickStringType::Disabled,
    }
}

/// The field values of Luau preset
pub open spec fn luau_spec() -> LuaSyntaxOptions {
    LuaSyntaxOptions {
        accept_binary_numbers: true,
        accept_c_comment_syntax: false,
        accept_compound_assignment: true,
        accept_empty_statements: false,
        accept_c_boolean_operators: false,
        accept_goto: false,
        accept_hex_escapes_in_strings: true,
        accept_hex_float_literals: false,
        accept_octal_numbers: false,
        accept_shebang: true,
        accept_underscore_in_number_literals: true,
        use_lua_jit_identifier_rules: false,
        accept_bitwise_operators: false,
        accept_whitespace_escape: true,
        accept_unicode_escape: true,
        continue_type: ContinueType::ContextualKeyword,
        accept_if_expressions: true,
        accept_invalid_escapes: true,
        accept_local_variable_attributes: false,
        binary_integer_format: IntegerFormats::Double,
        octal_integer_format: IntegerFormats::NotSupported,
        decimal_integer_format: IntegerFormats::NotSupported,
        hex_integer_format: IntegerFormats::Double,
        accept_typed_lua: true,
        accept_floor_division: true,
        accept_lua_jit_number_suffixes: false,
        accept_nesting_of_long_strings: true,
        backtick_string_type: BacktickStringType::InterpolatedStringLiteral,
    }
}

/// The field values of FiveM preset
pub open spec fn fivem_spec() -> LuaSyntaxOptions {
    LuaSyntaxOptions {
        accept_binary_numbers: false,
        accept_c_comment_syntax: false,
        accept_compound_assignment: false,
        accept_empty_statements: true,
        accept_c_boolean_operators: false,
        accept_goto: true,
        accept_hex_escapes_in_strings: true,
        accept_hex_float_literals: true,
        accept_octal_numbers: false,
        accept_shebang: true,
        accept_underscore_in_number_literals: false,
        use_lua_jit_identifier_rules: false,
        accept_bitwise_operators: true,
        accept_whitespace_escape: true,
        accept_unicode_escape: true,
        continue_type: ContinueType::Disabled,
        accept_if_expressions: false,
        accept_invalid_escapes: false,
        accept_local_variable_attributes: false,
        binary_integer_format: IntegerFormats::NotSupported,
        octal_integer_format: IntegerFormats::NotSupported,
        decimal_integer_format: IntegerFormats::Int64,
        hex_integer_format: IntegerFormats::Int64,
        accept_typed_lua: false,
        accept_floor_division: true,
        accept_lua_jit_number_suffixes: false,
        accept_nesting_of_long_strings: true,
        backtick_string_type: BacktickStringType::HashLiteral,
    }
}

/// The field values of preset that sets everything to true
pub open spec fn all_spec() -> LuaSyntaxOptions {
    LuaSyntaxOptions {
        accept_binary_numbers: true,
        accept_c_comment_syntax: true,
        accept_compound_assignment: true,
        accept_empty_statements: true,
        accept_c_boolean_operators: true,
        accept_goto: true,
        accept_hex_escapes_in_strings: true,
        accept_hex_float_literals: true,
        accept_octal_numbers: true,
        accept_shebang: true,
        accept_underscore_in_number_literals: true,
        use_lua_jit_identifier_rules: true,
        accept_bitwise_operators: true,
        accept_whitespace_escape: true,
        accept_unicode_escape: true,
        continue_type: ContinueType::ContextualKeyword,
        accept_if_expressions: true,
        accept_invalid_escapes: false,
        accept_local_variable_attributes: true,
        binary_integer_format: IntegerFormats::NotSupported,
        octal_integer_format: IntegerFormats::NotSupported,
        decimal_integer_format: IntegerFormats::NotSupported,
        hex_integer_format: IntegerFormats::NotSupported,
        accept_typed_lua: true,
        accept_floor_division: false,
        accept_lua_jit_number_suffixes: true,
        accept_nesting_of_long_strings: true,
        backtick_string_type: BacktickStringType::InterpolatedStringLiteral,
    }
}

/// The field values of Same as `all` but with integer settings set to Int64.
pub open spec fn all_with_integers_spec() -> LuaSyntaxOptions {
    LuaSyntaxOptions {
        accept_binary_numbers: true,
        accept_c_comment_syntax: false,
        accept_compound_assignment: true,
        accept_empty_statements: true,
        accept_c_boolean_operators: true,
        accept_goto: true,
        accept_hex_escapes_in_strings: true,
        accept_hex_float_literals: true,
        accept_octal_numbers: true,
        accept_shebang: true,
        accept_underscore_in_number_literals: true,
        use_lua_jit_identifier_rules: true,
        accept_bitwise_operators: true,
        accept_whitespace_escape: true,
        accept_unicode_escape: true,
        continue_type: ContinueType::ContextualKeyword,
        accept_if_expressions: true,
        accept_invalid_escapes: false,
        accept_local_variable_attributes: true,
        binary_integer_format: IntegerFormats::Int64,
        octal_integer_format: IntegerFormats::Int64,
        decimal_integer_format: IntegerFormats::Int64,
        hex_integer_format: IntegerFormats::Int64,
        accept_typed_lua: true,
        accept_floor_division: true,
        accept_lua_jit_number_suffixes: true,
        accept_nesting_of_long_strings: true,
        backtick_string_type: BacktickStringType::InterpolatedStringLiteral,
    }
}

impl LuaSyntaxOptions {
    /// The Lua 5.1 preset.
    pub fn lua51() -> (r: Self)
        ensures
            r == lua51_spec(),
    {
        LuaSyntaxOptions {
            accept_binary_numbers: false,
            accept_c_comment_syntax: false,
            accept_compound_assignment: false,
            accept_empty_statements: false,
            accept_c_boolean_operators: false,
            accept_goto: false,
            accept_hex_escapes_in_strings: false,
            accept_hex_float_literals: false,
            accept_octal_numbers: false,
            accept_shebang: true,
            accept_underscore_in_number_literals: false,
            use_lua_jit_identifier_rules: false,
            accept_bitwise_operators: false,
            accept_whitespace_escape: false,
            accept_unicode_escape: false,
            continue_type: ContinueType::Disabled,
            accept_if_expressions: false,
            accept_invalid_escapes: true,
            accept_local_variable_attributes: false,
            binary_integer_format: IntegerFormats::NotSupported,
            octal_integer_format: IntegerFormats::NotSupported,
            decimal_integer_format: IntegerFormats::NotSupported,
            hex_integer_format: IntegerFormats::NotSupported,
            accept_typed_lua: false,
            accept_floor_division: false,
            accept_lua_jit_number_suffixes: false,
            accept_nesting_of_long_strings: false,
            backtick_string_type: BacktickStringType::Disabled,
        }
    }

    /// The Lua 5.2 preset.
    pub fn lua52() -> (r: Self)
        ensures
            r == lua52_spec(),
    {
        LuaSyntaxOptions {
            accept_binary_numbers: false,
            accept_c_comment_syntax: false,
            accept_compound_assignment: false,
            accept_empty_statements: true,
            accept_c_boolean_operators: false,
            accept_goto: true,
            accept_hex_escapes_in_strings: true,
            accept_hex_float_literals: true,
            accept_octal_numbers: false,
            accept_shebang: true,
            accept_underscore_in_number_literals: false,
            use_lua_jit_identifier_rules: false,
            accept_bitwise_operators: false,
            accept_whitespace_escape: true,
            accept_unicode_escape: false,
            continue_type: ContinueType::Disabled,
            accept_if_expressions: false,
            accept_invalid_escapes: false,
            accept_local_variable_attributes: false,
            binary_integer_format: IntegerFormats::NotSupported,
            octal_integer_format: IntegerFormats::NotSupported,
            decimal_integer_format: IntegerFormats::NotSupported,
            hex_integer_format: IntegerFormats::NotSupported,
            accept_typed_lua: false,
            accept_floor_division: false,
            accept_lua_jit_number_suffixes: false,
            accept_nesting_of_long_strings: true,
            backtick_string_type: BacktickStringType::Disabled,
        }
    }

    /// The Lua 5.3 preset.
    pub fn lua53() -> (r: Self)
        ensures
            r == lua53_spec(),
    {
        LuaSyntaxOptions {
            accept_binary_numbers: false,
            accept_c_comment_syntax: false,
            accept_compound_assignment: false,
            accept_empty_statements: true,
            accept_c_boolean_operators: false,
            accept_goto: true,
            accept_hex_escapes_in_strings: true,
            accept_hex_float_literals: true,
            accept_octal_numbers: false,
            accept_shebang: true,
            accept_underscore_in_number_literals: false,
            use_lua_jit_identifier_rules: false,
            accept_bitwise_operators: true,
            accept_whitespace_escape: true,
            accept_unicode_escape: true,
            continue_type: ContinueType::Disabled,
            accept_if_expressions: false,
            accept_invalid_escapes: false,
            accept_local_variable_attributes: false,
            binary_integer_format: IntegerFormats::NotSupported,
            octal_integer_format: IntegerFormats::NotSupported,
            decimal_integer_format: IntegerFormats::Int64,
            hex_integer_format: IntegerFormats::Int64,
            accept_typed_lua: false,
            accept_floor_division: true,
            accept_lua_jit_number_suffixes: false,
            accept_nesting_of_long_strings: true,
            backtick_string_type: BacktickStringType::Disabled,
        }
    }

    /// The Lua 5.4 preset.
    pub fn lua54() -> (r: Self)
        ensures
            r == lua54_spec(),
    {
        LuaSyntaxOptions {
            accept_binary_numbers: false,
            accept_c_comment_syntax: false,
            accept_compound_assignment: false,
            accept_empty_statements: true,
            accept_c_boolean_operators: false,
            accept_goto: true,
            accept_hex_escapes_in_strings: true,
            accept_hex_float_literals: true,
            accept_octal_numbers: false,
            accept_shebang: true,
            accept_underscore_in_number_literals: false,
            use_lua_jit_identifier_rules: false,
            accept_bitwise_operators: true,
            accept_whitespace_escape: true,
            accept_unicode_escape: true,
            continue_type: ContinueType::Disabled,
            accept_if_expressions: false,
            accept_invalid_escapes: false,
            accept_local_variable_attributes: true,
            binary_integer_format: IntegerFormats::NotSupported,
            octal_integer_format: IntegerFormats::NotSupported,
            decimal_integer_format: IntegerFormats::Int64,
            hex_integer_format: IntegerFormats::Int64,
            accept_typed_lua: false,
            accept_floor_division: true,
            accept_lua_jit_number_suffixes: false,
            accept_nesting_of_long_strings: true,
            backtick_string_type: BacktickStringType::Disabled,
        }
    }

    /// The LuaJIT 2.0 preset.
    pub fn luajit20() -> (r: Self)
        ensures
            r == luajit20_spec(),
    {
        LuaSyntaxOptions {
            accept_binary_numbers: false,
            accept_c_comment_syntax: false,
            accept_compound_assignment: false,
            accept_empty_statements: false,
            accept_c_boolean_operators: false,
            accept_goto: true,
            accept_hex_escapes_in_strings: true,
            accept_hex_float_literals: true,
            accept_octal_numbers: false,
            accept_shebang: true,
            accept_underscore_in_number_literals: false,
            use_lua_jit_identifier_rules: true,
            accept_bitwise_operators: false,
            accept_whitespace_escape: true,
            accept_unicode_escape: false,
            continue_type: ContinueType::Disabled,
            accept_if_expressions: false,
            accept_invalid_escapes: false,
            accept_local_variable_attributes: false,
            binary_integer_format: IntegerFormats::NotSupported,
            octal_integer_format: IntegerFormats::NotSupported,
            decimal_integer_format: IntegerFormats::NotSupported,
            hex_integer_format: IntegerFormats::NotSupported,
            accept_typed_lua: false,
            accept_floor_division: false,
            accept_lua_jit_number_suffixes: true,
            accept_nesting_of_long_strings: true,
            backtick_string_type: BacktickStringType::Disabled,
        }
    }

    /// The LuaJIT 2.1-beta3 preset.
    pub fn luajit21() -> (r: Self)
        ensures
            r == luajit21_spec(),
    {
        LuaSyntaxOptions {
            accept_binary_numbers: true,
            accept_c_comment_syntax: false,
            accept_compound_assignment: false,
            accept_empty_statements: false,
            accept_c_boolean_operators: false,
            accept_goto: true,
            accept_hex_escapes_in_strings: true,
            accept_hex_float_literals: true,
            accept_octal_numbers: false,
            accept_shebang: true,
            accept_underscore_in_number_literals: false,
            use_lua_jit_identifier_rules: true,
            accept_bitwise_operators: false,
            accept_whitespace_escape: true,
            accept_unicode_escape: true,
            continue_type: ContinueType::Disabled,
            accept_if_expressions: false,
            accept_invalid_escapes: false,
            accept_local_variable_attributes: false,
            binary_integer_format: IntegerFormats::NotSupported,
            octal_integer_format: IntegerFormats::NotSupported,
            decimal_integer_format: IntegerFormats::NotSupported,
            hex_integer_format: IntegerFormats::NotSupported,
            accept_typed_lua: false,
            accept_floor_division: false,
            accept_lua_jit_number_suffixes: true,
            accept_nesting_of_long_strings: true,
            backtick_string_type: BacktickStringType::Disabled,
        }
    }

    /// The GLua preset.
    pub fn gmod() -> (r: Self)
        ensures
            r == gmod_spec(),
    {
        LuaSyntaxOptions {
            accept_binary_numbers: false,
            accept_c_comment_syntax: true,
            accept_compound_assignment: false,
            accept_empty_statements: false,
            accept_c_boolean_operators: true,
            accept_goto: true,
            accept_hex_escapes_in_strings: true,
            accept_hex_float_literals: true,
            accept_octal_numbers: false,
            accept_shebang: true,
            accept_underscore_in_number_literals: false,
            use_lua_jit_identifier_rules: true,
            accept_bitwise_operators: false,
            accept_whitespace_escape: true,
            accept_unicode_escape: false,
            continue_type: ContinueType::Keyword,
            accept_if_expressions: false,
            accept_invalid_escapes: false,
            accept_local_variable_attributes: false,
            binary_integer_format: IntegerFormats::NotSupported,
            octal_integer_format: IntegerFormats::NotSupported,
            decimal_integer_format: IntegerFormats::NotSupported,
            hex_integer_format: IntegerFormats::NotSupported,
            accept_typed_lua: false,
            accept_floor_division: false,
            accept_lua_jit_number_suffixes: true,
            accept_nesting_of_long_strings: true,
            backtick_string_type: BacktickStringType::Disabled,
        }
    }

    /// The Luau preset.
    pub fn luau() -> (r: Self)
        ensures
            r == luau_spec(),
    {
        LuaSyntaxOptions {
            accept_binary_numbers: true,
            accept_c_comment_syntax: false,
            accept_compound_assignment: true,
            accept_empty_statements: false,
            accept_c_boolean_operators: false,
            accept_goto: false,
            accept_hex_escapes_in_strings: true,
            accept_hex_float_literals: false,
            accept_octal_numbers: false,
            accept_shebang: true,
            accept_underscore_in_number_literals: true,
            use_lua_jit_identifier_rules: false,
            accept_bitwise_operators: false,
            accept_whitespace_escape: true,
            accept_unicode_escape: true,
            continue_type: ContinueType::ContextualKeyword,
            accept_if_expressions: true,
            accept_invalid_escapes: true,
            accept_local_variable_attributes: false,
            binary_integer_format: IntegerFormats::Double,
            octal_integer_format: IntegerFormats::NotSupported,
            decimal_integer_format: IntegerFormats::NotSupported,
            hex_integer_format: IntegerFormats::Double,
            accept_typed_lua: true,
            accept_floor_division: true,
            accept_lua_jit_number_suffixes: false,
            accept_nesting_of_long_strings: true,
            backtick_string_type: BacktickStringType::InterpolatedStringLiteral,
        }
    }

    /// The FiveM preset.
    pub fn fivem() -> (r: Self)
        ensures
            r == fivem_spec(),
    {
        LuaSyntaxOptions {
            accept_binary_numbers: false,
            accept_c_comment_syntax: false,
            accept_compound_assignment: false,
            accept_empty_statements: true,
            accept_c_boolean_operators: false,
            accept_goto: true,
            accept_hex_escapes_in_strings: true,
            accept_hex_float_literals: true,
            accept_octal_numbers: false,
            accept_shebang: true,
            accept_underscore_in_number_literals: false,
            use_lua_jit_identifier_rules: false,
            accept_bitwise_operators: true,
            accept_whitespace_escape: true,
            accept_unicode_escape: true,
            continue_type: ContinueType::Disabled,
            accept_if_expressions: false,
            accept_invalid_escapes: false,
            accept_local_variable_attributes: false,
            binary_integer_format: IntegerFormats::NotSupported,
            octal_integer_format: IntegerFormats::NotSupported,
            decimal_integer_format: IntegerFormats::Int64,
            hex_integer_format: IntegerFormats::Int64,
            accept_typed_lua: false,
            accept_floor_division: true,
            accept_lua_jit_number_suffixes: false,
            accept_nesting_of_long_strings: true,
            backtick_string_type: BacktickStringType::HashLiteral,
        }
    }

    /// The preset that sets everything to true.
    pub fn all() -> (r: Self)
        ensures
            r == all_spec(),
    {
        LuaSyntaxOptions {
            accept_binary_numbers: true,
            accept_c_comment_syntax: true,
            accept_compound_assignment: true,
            accept_empty_statements: true,
            accept_c_boolean_operators: true,
            accept_goto: true,
            accept_hex_escapes_in_strings: true,
            accept_hex_float_literals: true,
            accept_octal_numbers: true,
            accept_shebang: true,
            accept_underscore_in_number_literals: true,
            use_lua_jit_identifier_rules: true,
            accept_bitwise_operators: true,
            accept_whitespace_escape: true,
            accept_unicode_escape: true,
            continue_type: ContinueType::ContextualKeyword,
            accept_if_expressions: true,
            accept_invalid_escapes: false,
            accept_local_variable_attributes: true,
            binary_integer_format: IntegerFormats::NotSupported,
            octal_integer_format: IntegerFormats::NotSupported,
            decimal_integer_format: IntegerFormats::NotSupported,
            hex_integer_format: IntegerFormats::NotSupported,
            accept_typed_lua: true,
            accept_floor_division: false,
            accept_lua_jit_number_suffixes: true,
            accept_nesting_of_long_strings: true,
            backtick_string_type: BacktickStringType::InterpolatedStringLiteral,
        }
    }

    /// Same as `all` but with integer settings set to Int64.
    pub fn all_with_integers() -> (r: Self)
        ensures
            r == all_with_integers_spec(),
    {
        LuaSyntaxOptions {
            accept_binary_numbers: true,
            accept_c_comment_syntax: false,
            accept_compound_assignment: true,
            accept_empty_statements: true,
            accept_c_boolean_operators: true,
            accept_goto: true,
            accept_hex_escapes_in_strings: true,
            accept_hex_float_literals: true,
            accept_octal_numbers: true,
            accept_shebang: true,
            accept_underscore_in_number_literals: true,
            use_lua_jit_identifier_rules: true,
            accept_bitwise_operators: true,
            accept_whitespace_escape: true,
            accept_unicode_escape: true,
            continue_type: ContinueType::ContextualKeyword,
            accept_if_expressions: true,
            accept_invalid_escapes: false,
            accept_local_variable_attributes: true,
            binary_integer_format: IntegerFormats::Int64,
            octal_integer_format: IntegerFormats::Int64,
            decimal_integer_format: IntegerFormats::Int64,
            hex_integer_format: IntegerFormats::Int64,
            accept_typed_lua: true,
            accept_floor_division: true,
            accept_lua_jit_number_suffixes: true,
            accept_nesting_of_long_strings: true,
            backtick_string_type: BacktickStringType::InterpolatedStringLiteral,
        }
    }

}

/// The `Display` text of a flag.
pub open spec fn bool_text(b: bool) -> Seq<char> {
    if b {
        "true"@
    } else {
        "false"@
    }
}

/// The `Debug` text of a continue type, as the option listing names it.
pub open spec fn continue_type_text(c: ContinueType) -> Seq<char> {
    match c {
        ContinueType::Disabled => "None"@,
        ContinueType::Keyword => "Keyword"@,
        ContinueType::ContextualKeyword => "ContextualKeyword"@,
    }
}

/// The `Debug` text of an integer format.
pub open spec fn integer_format_text(f: IntegerFormats) -> Seq<char> {
    match f {
        IntegerFormats::NotSupported => "NotSupported"@,
        IntegerFormats::Double => "Double"@,
        IntegerFormats::Int64 => "Int64"@,
    }
}

/// The `Debug` text of a backtick string type, as the option listing names it.
pub open spec fn backtick_type_text(t: BacktickStringType) -> Seq<char> {
    match t {
        BacktickStringType::Disabled => "None"@,
        BacktickStringType::HashLiteral => "HashLiteral"@,
        BacktickStringType::InterpolatedStringLiteral => "InterpolatedStringLiteral"@,
    }
}

fn bool_str(b: bool) -> (r: &'static str)
    ensures
        r@ == bool_text(b),
{
    if b {
        "true"
    } else {
        "false"
    }
}

fn continue_type_str(c: ContinueType) -> (r: &'static str)
    ensures
        r@ == continue_type_text(c),
{
    match c {
        ContinueType::Disabled => "None",
        ContinueType::Keyword => "Keyword",
        ContinueType::ContextualKeyword => "ContextualKeyword",
    }
}

fn integer_format_str(f: IntegerFormats) -> (r: &'static str)
    ensures
        r@ == integer_format_text(f),
{
    match f {
        IntegerFormats::NotSupported => "NotSupported",
        IntegerFormats::Double => "Double",
        IntegerFormats::Int64 => "Int64",
    }
}

fn backtick_type_str(t: BacktickStringType) -> (r: &'static str)
    ensures
        r@ == backtick_type_text(t),
{
    match t {
        BacktickStringType::Disabled => "None",
        BacktickStringType::HashLiteral => "HashLiteral",
        BacktickStringType::InterpolatedStringLiteral => "InterpolatedStringLiteral",
    }
}

/// Fields 1 to 4 of the field listing of an option set.
pub open spec fn listing_chunk0(prefix: Seq<char>, o: LuaSyntaxOptions) -> Seq<char> {
    prefix + "{ AcceptBinaryNumbers = "@ + bool_text(o.accept_binary_numbers)
        + ", AcceptCCommentSyntax = "@ + bool_text(o.accept_c_comment_syntax)
        + ", AcceptCompoundAssignment = "@ + bool_text(o.accept_compound_assignment)
        + ", AcceptEmptyStatements = "@ + bool_text(o.accept_empty_statements)
}

/// Fields 5 to 8 of the field listing of an option set.
pub open spec fn listing_chunk1(prefix: Seq<char>, o: LuaSyntaxOptions) -> Seq<char> {
    prefix + ", AcceptCBooleanOperators = "@ + bool_text(o.accept_c_boolean_operators)
        + ", AcceptGoto = "@ + bool_text(o.accept_goto)
        + ", AcceptHexEscapesInStrings = "@ + bool_text(o.accept_hex_escapes_in_strings)
        + ", AcceptHexFloatLiterals = "@ + bool_text(o.accept_hex_float_literals)
}

/// Fields 9 to 12 of the field listing of an option set.
pub open spec fn listing_chunk2(prefix: Seq<char>, o: LuaSyntaxOptions) -> Seq<char> {
    prefix + ", AcceptOctalNumbers = "@ + bool_text(o.accept_octal_numbers)
        + ", AcceptShebang = "@ + bool_text(o.accept_shebang)
        + ", AcceptUnderscoreInNumberLiterals = "@ + bool_text(o.accept_underscore_in_number_literals)
        + ", UseLuaJitIdentifierRules = "@ + bool_text(o.use_lua_jit_identifier_rules)
}

/// Fields 13 to 16 of the field listing of an option set.
pub open spec fn listing_chunk3(prefix: Seq<char>, o: LuaSyntaxOptions) -> Seq<char> {
    prefix + ", AcceptBitwiseOperators = "@ + bool_text(o.accept_bitwise_operators)
        + ", AcceptWhitespaceEscape = "@ + bool_text(o.accept_whitespace_escape)
        + ", ContinueType = "@ + continue_type_text(o.continue_type)
        + ", AcceptIfExpressions = "@ + bool_text(o.accept_if_expressions)
}

/// Fields 17 to 20 of the field listing of an option set.
pub open spec fn listing_chunk4(prefix: Seq<char>, o: LuaSyntaxOptions) -> Seq<char> {
    prefix + ", AcceptLocalVariableAttributes = "@ + bool_text(o.accept_local_variable_attributes)
        + ", BinaryIntegerFormat = "@ + integer_format_text(o.binary_integer_format)
        + ", OctalIntegerFormat = "@ + integer_format_text(o.octal_integer_format)
        + ", DecimalIntegerFormat = "@ + integer_format_text(o.decimal_integer_format)
}

/// Fields 21 to 24 of the field listing of an option set.
pub open spec fn listing_chunk5(prefix: Seq<char>, o: LuaSyntaxOptions) -> Seq<char> {
    prefix + ", HexIntegerFormat = "@ + integer_format_text(o.hex_integer_format)
        + ", AcceptTypedLua = "@ + bool_text(o.accept_typed_lua)
        + ", AcceptFloorDivision = "@ + bool_text(o.accept_floor_division)
        + ", AcceptLuaJITNumberSuffixes = "@ + bool_text(o.accept_lua_jit_number_suffixes)
}

/// Fields 25 to 26 of the field listing of an option set.
pub open spec fn listing_chunk6(prefix: Seq<char>, o: LuaSyntaxOptions) -> Seq<char> {
    prefix + ", AcceptNestingOfLongStrings = "@ + bool_text(o.accept_nesting_of_long_strings)
        + ", BacktickStringType = "@ + backtick_type_text(o.backtick_string_type)
}

/// `prefix` followed by the field listing of an option set.
pub open spec fn listing_after(prefix: Seq<char>, o: LuaSyntaxOptions) -> Seq<char> {
    listing_chunk6(listing_chunk5(listing_chunk4(listing_chunk3(listing_chunk2(listing_chunk1(listing_chunk0(prefix, o), o), o), o), o), o), o) + " }"@
}

fn push_listing_chunk0(o: &LuaSyntaxOptions, out: &mut Vec<char>)
    ensures
        final(out)@ == listing_chunk0(old(out)@, *o),
{
    push_str(out, "{ AcceptBinaryNumbers = ");
    push_str(out, bool_str(o.accept_binary_numbers));
    push_str(out, ", AcceptCCommentSyntax = ");
    push_str(out, bool_str(o.accept_c_comment_syntax));
    push_str(out, ", AcceptCompoundAssignment = ");
    push_str(out, bool_str(o.accept_compound_assignment));
    push_str(out, ", AcceptEmptyStatements = ");
    push_str(out, bool_str(o.accept_empty_statements));
}

fn push_listing_chunk1(o: &LuaSyntaxOptions, out: &mut Vec<char>)
    ensures
        final(out)@ == listing_chunk1(old(out)@, *o),
{
    push_str(out, ", AcceptCBooleanOperators = ");
    push_str(out, bool_str(o.accept_c_boolean_operators));
    push_str(out, ", AcceptGoto = ");
    push_str(out, bool_str(o.accept_goto));
    push_str(out, ", AcceptHexEscapesInStrings = ");
    push_str(out, bool_str(o.accept_hex_escapes_in_strings));
    push_str(out, ", AcceptHexFloatLiterals = ");
    push_str(out, bool_str(o.accept_hex_float_literals));
}

fn push_listing_chunk2(o: &LuaSyntaxOptions, out: &mut Vec<char>)
    ensures
        final(out)@ == listing_chunk2(old(out)@, *o),
{
    push_str(out, ", AcceptOctalNumbers = ");
    push_str(out, bool_str(o.accept_octal_numbers));
    push_str(out, ", AcceptShebang = ");
    push_str(out, bool_str(o.accept_shebang));
    push_str(out, ", AcceptUnderscoreInNumberLiterals = ");
    push_str(out, bool_str(o.accept_underscore_in_number_literals));
    push_str(out, ", UseLuaJitIdentifierRules = ");
    push_str(out, bool_str(o.use_lua_jit_identifier_rules));
}

fn push_listing_chunk3(o: &LuaSyntaxOptions, out: &mut Vec<char>)
    ensures
        final(out)@ == listing_chunk3(old(out)@, *o),
{
    push_str(out, ", AcceptBitwiseOperators = ");
    push_str(out, bool_str(o.accept_bitwise_operators));
    push_str(out, ", AcceptWhitespaceEscape = ");
    push_str(out, bool_str(o.accept_whitespace_escape));
    push_str(out, ", ContinueType = ");
    push_str(out, continue_type_str(o.continue_type));
    push_str(out, ", AcceptIfExpressions = ");
    push_str(out, bool_str(o.accept_if_expressions));
}

fn push_listing_chunk4(o: &LuaSyntaxOptions, out: &mut Vec<char>)
    ensures
        final(out)@ == listing_chunk4(old(out)@, *o),
{
    push_str(out, ", AcceptLocalVariableAttributes = ");
    push_str(out, bool_str(o.accept_local_variable_attributes));
    push_str(out, ", BinaryIntegerFormat = ");
    push_str(out, integer_format_str(o.binary_integer_format));
    push_str(out, ", OctalIntegerFormat = ");
    push_str(out, integer_format_str(o.octal_integer_format));
    push_str(out, ", DecimalIntegerFormat = ");
    push_str(out, integer_format_str(o.decimal_integer_format));
}

fn push_listing_chunk5(o: &LuaSyntaxOptions, out: &mut Vec<char>)
    ensures
        final(out)@ == listing_chunk5(old(out)@, *o),
{
    push_str(out, ", HexIntegerFormat = ");
    push_str(out, integer_format_str(o.hex_integer_format));
    push_str(out, ", AcceptTypedLua = ");
    push_str(out, bool_str(o.accept_typed_lua));
    push_str(out, ", AcceptFloorDivision = ");
    push_str(out, bool_str(o.accept_floor_division));
    push_str(out, ", AcceptLuaJITNumberSuffixes = ");
    push_str(out, bool_str(o.accept_lua_jit_number_suffixes));
}

fn push_listing_chunk6(o: &LuaSyntaxOptions, out: &mut Vec<char>)
    ensures
        final(out)@ == listing_chunk6(old(out)@, *o),
{
    push_str(out, ", AcceptNestingOfLongStrings = ");
    push_str(out, bool_str(o.accept_nesting_of_long_strings));
    push_str(out, ", BacktickStringType = ");
    push_str(out, backtick_type_str(o.backtick_string_type));
}

/// The field listing of an option set that is no preset.
pub open spec fn options_listing(o: LuaSyntaxOptions) -> Seq<char> {
    listing_after(Seq::empty(), o)
}

fn push_listing(o: &LuaSyntaxOptions, out: &mut Vec<char>)
    ensures
        final(out)@ == listing_after(old(out)@, *o),
{
    push_listing_chunk0(o, out);
    push_listing_chunk1(o, out);
    push_listing_chunk2(o, out);
    push_listing_chunk3(o, out);
    push_listing_chunk4(o, out);
    push_listing_chunk5(o, out);
    push_listing_chunk6(o, out);
    push_str(out, " }");
}

/// The name of the preset an option set equals, if any (the first preset in the
/// listing order that compares equal).
pub open spec fn preset_name_spec(o: LuaSyntaxOptions) -> Option<Seq<char>> {
    if options_equivalent(o, lua51_spec()) {
        Some("Lua 5.1"@)
    } else if options_equivalent(o, lua52_spec()) {
        Some("Lua 5.2"@)
    } else if options_equivalent(o, lua53_spec()) {
        Some("Lua 5.3"@)
    } else if options_equivalent(o, lua54_spec()) {
        Some("Lua 5.4"@)
    } else if options_equivalent(o, luajit20_spec()) {
        Some("LuaJIT 2.0"@)
    } else if options_equivalent(o, luajit21_spec()) {
        Some("LuaJIT 2.1"@)
    } else if options_equivalent(o, gmod_spec()) {
        Some("GLua"@)
    } else if options_equivalent(o, luau_spec()) {
        Some("Luau"@)
    } else if options_equivalent(o, fivem_spec()) {
        Some("FiveM"@)
    } else if options_equivalent(o, all_spec()) {
        Some("All (without integers)"@)
    } else if options_equivalent(o, all_with_integers_spec()) {
        Some("All (with integers)"@)
    } else {
        None
    }
}

/// The view of an optional string slice.
pub open spec fn opt_str_view(s: Option<&str>) -> Option<Seq<char>> {
    match s {
        Some(t) => Some(t@),
        None => None,
    }
}

/// The text an option set displays as: its preset name, or the listing of its fields.
pub open spec fn display_spec(o: LuaSyntaxOptions) -> Seq<char> {
    match preset_name_spec(o) {
        Some(name) => name,
        None => options_listing(o),
    }
}

/// The presets in their listing order.
pub open spec fn all_presets_spec() -> Seq<LuaSyntaxOptions> {
    seq![lua51_spec(), lua52_spec(), lua53_spec(), lua54_spec(), luajit20_spec(), luajit21_spec(), gmod_spec(), luau_spec(), fivem_spec(), all_spec(), all_with_integers_spec()] 
}

impl LuaSyntaxOptions {
    /// The Roblox preset (the Luau preset).
    pub fn roblox() -> (r: Self)
        ensures
            r == luau_spec(),
    {
        Self::luau()
    }

    /// All presets that are preconfigured.
    pub fn all_presets() -> (r: Vec<Self>)
        ensures
            r@ == all_presets_spec(),
    {
        let mut v: Vec<Self> = Vec::new();
        v.push(Self::lua51());
        v.push(Self::lua52());
        v.push(Self::lua53());
        v.push(Self::lua54());
        v.push(Self::luajit20());
        v.push(Self::luajit21());
        v.push(Self::gmod());
        v.push(Self::luau());
        v.push(Self::fivem());
        v.push(Self::all());
        v.push(Self::all_with_integers());
        proof {
            assert(v@ =~= all_presets_spec());
        }
        v
    }

    /// Whether hash strings are accepted: true exactly when backtick strings have no
    /// other meaning.
    pub fn accept_hash_strings(&self) -> (r: bool)
        ensures
            r == (self.backtick_string_type == BacktickStringType::Disabled),
    {
        self.backtick_string_type == BacktickStringType::Disabled
    }

    /// Creates a new option set with the provided values. Floor division and C comment
    /// syntax cannot both be enabled (`//` would be ambiguous).
    pub fn new(
        accept_binary_numbers: bool,
        accept_c_comment_syntax: bool,
        accept_compound_assignment: bool,
        accept_empty_statements: bool,
        accept_c_boolean_operators: bool,
        accept_goto: bool,
        accept_hex_escapes_in_strings: bool,
        accept_hex_float_literals: bool,
        accept_octal_numbers: bool,
        accept_shebang: bool,
        accept_underscore_in_number_literals: bool,
        use_lua_jit_identifier_rules: bool,
        accept_bitwise_operators: bool,
        accept_whitespace_escape: bool,
        accept_unicode_escape: bool,
        continue_type: ContinueType,
        accept_if_expressions: bool,
        accept_invalid_escapes: bool,
        accept_local_variable_attributes: bool,
        binary_integer_format: IntegerFormats,
        octal_integer_format: IntegerFormats,
        decimal_integer_format: IntegerFormats,
        hex_integer_format: IntegerFormats,
        accept_typed_lua: bool,
        accept_floor_division: bool,
        accept_lua_jit_number_suffixes: bool,
        accept_nesting_of_long_strings: bool,
        backtick_string_type: BacktickStringType,
    ) -> (r: Self)
        requires
            !(accept_floor_division && accept_c_comment_syntax),
        ensures
            r == (LuaSyntaxOptions {
                accept_binary_numbers,
                accept_c_comment_syntax,
                accept_compound_assignment,
                accept_empty_statements,
                accept_c_boolean_operators,
                accept_goto,
                accept_hex_escapes_in_strings,
                accept_hex_float_literals,
                accept_octal_numbers,
                accept_shebang,
                accept_underscore_in_number_literals,
                use_lua_jit_identifier_rules,
                accept_bitwise_operators,
                accept_whitespace_escape,
                accept_unicode_escape,
                continue_type,
                accept_if_expressions,
                accept_invalid_escapes,
                accept_local_variable_attributes,
                binary_integer_format,
                octal_integer_format,
                decimal_integer_format,
                hex_integer_format,
                accept_typed_lua,
                accept_floor_division,
                accept_lua_jit_number_suffixes,
                accept_nesting_of_long_strings,
                backtick_string_type,
            }),
    {
        LuaSyntaxOptions {
            accept_binary_numbers,
            accept_c_comment_syntax,
            accept_compound_assignment,
            accept_empty_statements,
            accept_c_boolean_operators,
            accept_goto,
            accept_hex_escapes_in_strings,
            accept_hex_float_literals,
            accept_octal_numbers,
            accept_shebang,
            accept_underscore_in_number_literals,
            use_lua_jit_identifier_rules,
            accept_bitwise_operators,
            accept_whitespace_escape,
            accept_unicode_escape,
            continue_type,
            accept_if_expressions,
            accept_invalid_escapes,
            accept_local_variable_attributes,
            binary_integer_format,
            octal_integer_format,
            decimal_integer_format,
            hex_integer_format,
            accept_typed_lua,
            accept_floor_division,
            accept_lua_jit_number_suffixes,
            accept_nesting_of_long_strings,
            backtick_string_type,
        }
    }

    /// Creates a copy of this option set with the fields given as `Some` replaced.
    pub fn with(
        &self,
        accept_binary_numbers: Option<bool>,
        accept_c_comment_syntax: Option<bool>,
        accept_compound_assignment: Option<bool>,
        accept_empty_statements: Option<bool>,
        accept_c_boolean_operators: Option<bool>,
        accept_goto: Option<bool>,
        accept_hex_escapes_in_strings: Option<bool>,
        accept_hex_float_literals: Option<bool>,
        accept_octal_numbers: Option<bool>,
        accept_shebang: Option<bool>,
        accept_underscore_in_number_literals: Option<bool>,
        use_lua_jit_identifier_rules: Option<bool>,
        accept_bitwise_operators: Option<bool>,
        accept_whitespace_escape: Option<bool>,
        accept_unicode_escape: Option<bool>,
        continue_type: Option<ContinueType>,
        accept_if_expressions: Option<bool>,
        accept_invalid_escapes: Option<bool>,
        accept_local_variable_attributes: Option<bool>,
        binary_integer_format: Option<IntegerFormats>,
        octal_integer_format: Option<IntegerFormats>,
        decimal_integer_format: Option<IntegerFormats>,
        hex_integer_format: Option<IntegerFormats>,
        accept_typed_lua: Option<bool>,
        accept_floor_division: Option<bool>,
        accept_lua_jit_number_suffixes: Option<bool>,
        accept_nesting_of_long_strings: Option<bool>,
        backtick_string_type: Option<BacktickStringType>,
    ) -> (r: Self)
        requires
            !(accept_floor_division.unwrap_or(self.accept_floor_division)
                && accept_c_comment_syntax.unwrap_or(self.accept_c_comment_syntax)),
        ensures
            r.accept_binary_numbers == accept_binary_numbers.unwrap_or(self.accept_binary_numbers),
            r.accept_c_comment_syntax == accept_c_comment_syntax.unwrap_or(self.accept_c_comment_syntax),
            r.accept_compound_assignment == accept_compound_assignment.unwrap_or(self.accept_compound_assignment),
            r.accept_empty_statements == accept_empty_statements.unwrap_or(self.accept_empty_statements),
            r.accept_c_boolean_operators == accept_c_boolean_operators.unwrap_or(self.accept_c_boolean_operators),
            r.accept_goto == accept_goto.unwrap_or(self.accept_goto),
            r.accept_hex_escapes_in_strings == accept_hex_escapes_in_strings.unwrap_or(self.accept_hex_escapes_in_strings),
            r.accept_hex_float_literals == accept_hex_float_literals.unwrap_or(self.accept_hex_float_literals),
            r.accept_octal_numbers == accept_octal_numbers.unwrap_or(self.accept_octal_numbers),
            r.accept_shebang == accept_shebang.unwrap_or(self.accept_shebang),
            r.accept_underscore_in_number_literals == accept_underscore_in_number_literals.unwrap_or(self.accept_underscore_in_number_literals),
            r.use_lua_jit_identifier_rules == use_lua_jit_identifier_rules.unwrap_or(self.use_lua_jit_identifier_rules),
            r.accept_bitwise_operators == accept_bitwise_operators.unwrap_or(self.accept_bitwise_operators),
            r.accept_whitespace_escape == accept_whitespace_escape.unwrap_or(self.accept_whitespace_escape),
            r.accept_unicode_escape == accept_unicode_escape.unwrap_or(self.accept_unicode_escape),
            r.continue_type == continue_type.unwrap_or(self.continue_type),
            r.accept_if_expressions == accept_if_expressions.unwrap_or(self.accept_if_expressions),
            r.accept_invalid_escapes == accept_invalid_escapes.unwrap_or(self.accept_invalid_escapes),
            r.accept_local_variable_attributes == accept_local_variable_attributes.unwrap_or(self.accept_local_variable_attributes),
            r.binary_integer_format == binary_integer_format.unwrap_or(self.binary_integer_format),
            r.octal_integer_format == octal_integer_format.unwrap_or(self.octal_integer_format),
            r.decimal_integer_format == decimal_integer_format.unwrap_or(self.decimal_integer_format),
            r.hex_integer_format == hex_integer_format.unwrap_or(self.hex_integer_format),
            r.accept_typed_lua == accept_typed_lua.unwrap_or(self.accept_typed_lua),
            r.accept_floor_division == accept_floor_division.unwrap_or(self.accept_floor_division),
            r.accept_lua_jit_number_suffixes == accept_lua_jit_number_suffixes.unwrap_or(self.accept_lua_jit_number_suffixes),
            r.accept_nesting_of_long_strings == accept_nesting_of_long_strings.unwrap_or(self.accept_nesting_of_long_strings),
            r.backtick_string_type == backtick_string_type.unwrap_or(self.backtick_string_type),
    {
        let accept_binary_numbers = match accept_binary_numbers {
            Some(v) => v,
            None => self.accept_binary_numbers,
        };
        let accept_c_comment_syntax = match accept_c_comment_syntax {
            Some(v) => v,
            None => self.accept_c_comment_syntax,
        };
        let accept_compound_assignment = match accept_compound_assignment {
            Some(v) => v,
            None => self.accept_compound_assignment,
        };
        let accept_empty_statements = match accept_empty_statements {
            Some(v) => v,
            None => self.accept_empty_statements,
        };
        let accept_c_boolean_operators = match accept_c_boolean_operators {
            Some(v) => v,
            None => self.accept_c_boolean_operators,
        };
        let accept_goto = match accept_goto {
            Some(v) => v,
            None => self.accept_goto,
        };
        let accept_hex_escapes_in_strings = match accept_hex_escapes_in_strings {
            Some(v) => v,
            None => self.accept_hex_escapes_in_strings,
        };
        let accept_hex_float_literals = match accept_hex_float_literals {
            Some(v) => v,
            None => self.accept_hex_float_literals,
        };
        let accept_octal_numbers = match accept_octal_numbers {
            Some(v) => v,
            None => self.accept_octal_numbers,
        };
        let accept_shebang = match accept_shebang {
            Some(v) => v,
            None => self.accept_shebang,
        };
        let accept_underscore_in_number_literals = match accept_underscore_in_number_literals {
            Some(v) => v,
            None => self.accept_underscore_in_number_literals,
        };
        let use_lua_jit_identifier_rules = match use_lua_jit_identifier_rules {
            Some(v) => v,
            None => self.use_lua_jit_identifier_rules,
        };
        let accept_bitwise_operators = match accept_bitwise_operators {
            Some(v) => v,
            None => self.accept_bitwise_operators,
        };
        let accept_whitespace_escape = match accept_whitespace_escape {
            Some(v) => v,
            None => self.accept_whitespace_escape,
        };
        let accept_unicode_escape = match accept_unicode_escape {
            Some(v) => v,
            None => self.accept_unicode_escape,
        };
        let continue_type = match continue_type {
            Some(v) => v,
            None => self.continue_type,
        };
        let accept_if_expressions = match accept_if_expressions {
            Some(v) => v,
            None => self.accept_if_expressions,
        };
        let accept_invalid_escapes = match accept_invalid_escapes {
            Some(v) => v,
            None => self.accept_invalid_escapes,
        };
        let accept_local_variable_attributes = match accept_local_variable_attributes {
            Some(v) => v,
            None => self.accept_local_variable_attributes,
        };
        let binary_integer_format = match binary_integer_format {
            Some(v) => v,
            None => self.binary_integer_format,
        };
        let octal_integer_format = match octal_integer_format {
            Some(v) => v,
            None => self.octal_integer_format,
        };
        let decimal_integer_format = match decimal_integer_format {
            Some(v) => v,
            None => self.decimal_integer_format,
        };
        let hex_integer_format = match hex_integer_format {
            Some(v) => v,
            None => self.hex_integer_format,
        };
        let accept_typed_lua = match accept_typed_lua {
            Some(v) => v,
            None => self.accept_typed_lua,
        };
        let accept_floor_division = match accept_floor_division {
            Some(v) => v,
            None => self.accept_floor_division,
        };
        let accept_lua_jit_number_suffixes = match accept_lua_jit_number_suffixes {
            Some(v) => v,
            None => self.accept_lua_jit_number_suffixes,
        };
        let accept_nesting_of_long_strings = match accept_nesting_of_long_strings {
            Some(v) => v,
            None => self.accept_nesting_of_long_strings,
        };
        let backtick_string_type = match backtick_string_type {
            Some(v) => v,
            None => self.backtick_string_type,
        };
        LuaSyntaxOptions {
            accept_binary_numbers,
            accept_c_comment_syntax,
            accept_compound_assignment,
            accept_empty_statements,
            accept_c_boolean_operators,
            accept_goto,
            accept_hex_escapes_in_strings,
            accept_hex_float_literals,
            accept_octal_numbers,
            accept_shebang,
            accept_underscore_in_number_literals,
            use_lua_jit_identifier_rules,
            accept_bitwise_operators,
            accept_whitespace_escape,
            accept_unicode_escape,
            continue_type,
            accept_if_expressions,
            accept_invalid_escapes,
            accept_local_variable_attributes,
            binary_integer_format,
            octal_integer_format,
            decimal_integer_format,
            hex_integer_format,
            accept_typed_lua,
            accept_floor_division,
            accept_lua_jit_number_suffixes,
            accept_nesting_of_long_strings,
            backtick_string_type,
        }
    }

    /// The name of the preset this option set equals, if any.
    pub fn preset_name(&self) -> (r: Option<&'static str>)
        ensures
            opt_str_view(r) == preset_name_spec(*self),
    {
        if *self == Self::lua51() {
            Some("Lua 5.1")
        } else if *self == Self::lua52() {
            Some("Lua 5.2")
        } else if *self == Self::lua53() {
            Some("Lua 5.3")
        } else if *self == Self::lua54() {
            Some("Lua 5.4")
        } else if *self == Self::luajit20() {
            Some("LuaJIT 2.0")
        } else if *self == Self::luajit21() {
            Some("LuaJIT 2.1")
        } else if *self == Self::gmod() {
            Some("GLua")
        } else if *self == Self::luau() {
            Some("Luau")
        } else if *self == Self::fivem() {
            Some("FiveM")
        } else if *self == Self::all() {
            Some("All (without integers)")
        } else if *self == Self::all_with_integers() {
            Some("All (with integers)")
        } else {
            None
        }
    }

    /// The text this option set displays as: its preset name, or the listing of its
    /// fields.
    pub fn display_text(&self) -> (r: String)
        ensures
            r@ == display_spec(*self),
    {
        let mut out: Vec<char> = Vec::new();
        match self.preset_name() {
            Some(name) => push_str(&mut out, name),
            None => {
                push_listing(self, &mut out);
            },
        }
        string_from_chars(out.as_slice())
    }
}

} // verus!
