use loretta::experimental::expressionflags::{
    has_e_flag, FLAG_IS_CONSTANT, FLAG_IS_LONG, FLAG_IS_NIL, FLAG_IS_NUM, FLAG_IS_SCALAR,
    FLAG_IS_STR,
};
use loretta::experimental::minifying::islotallocator::ISlotAllocator;
use loretta::experimental::minifying::minifyingutils::MinifyingUtils;
use loretta::experimental::minifying::namingstrategies::{is_keyword, NamingStrategies};
use loretta::experimental::minifying::renametable::RenameTable;
use loretta::experimental::minifying::renamingrewriter::RenamingRewriter;
use loretta::experimental::minifying::sequentialslotallocator::SequentialSlotAllocator;
use loretta::experimental::minifying::sortedslotallocator::SortedSlotAllocator;
use loretta::experimental::minifying::triviarewriter::{
    requires_separator, OperatorSymbol, TokenKind,
};
use loretta::operations::binaryoperatorkind::BinaryOperatorKind;
use loretta::operations::unaryoperatorkind::UnaryOperatorKind;
use loretta::scoping::{Scope, ScopeTree, Script, ScriptVariable, Variable, VariableKind};

fn variable(name: &str, kind: VariableKind, has_declaration: bool) -> Variable {
    Variable {
        name: name.to_string(),
        kind,
        has_declaration,
    }
}

fn empty_tree() -> ScopeTree {
    ScopeTree {
        scopes: vec![Scope {
            containing_scope: None,
            declared_variables: vec![],
        }],
    }
}

#[test]
fn alphabetical_names_count_in_base_26() {
    let tree = empty_tree();
    assert_eq!(NamingStrategies::alphabetical(0, &tree, &[0]), "a");
    assert_eq!(NamingStrategies::alphabetical(1, &tree, &[0]), "b");
    assert_eq!(NamingStrategies::alphabetical(26, &tree, &[0]), "ba");
}

#[test]
fn alphabetical_names_avoid_keywords() {
    let tree = empty_tree();
    assert_eq!(NamingStrategies::alphabetical(92, &tree, &[0]), "_do");
    assert!(is_keyword("do"));
    assert!(is_keyword("typeof"));
    assert!(!is_keyword("_do"));
}

#[test]
fn names_avoid_variables_that_keep_their_names() {
    let tree = ScopeTree {
        scopes: vec![Scope {
            containing_scope: None,
            declared_variables: vec![variable("a", VariableKind::Global, false)],
        }],
    };
    assert_eq!(NamingStrategies::alphabetical(0, &tree, &[0]), "_a");
    let renamable = ScopeTree {
        scopes: vec![Scope {
            containing_scope: None,
            declared_variables: vec![variable("a", VariableKind::Local, true)],
        }],
    };
    assert_eq!(NamingStrategies::alphabetical(0, &renamable, &[0]), "a");
    assert_eq!(MinifyingUtils::get_unavailable_names(&tree, &[0]), vec!["a".to_string()]);
}

#[test]
fn numerical_names_start_with_an_underscore() {
    let tree = empty_tree();
    assert_eq!(NamingStrategies::numerical(0, &tree, &[0]), "_0");
    assert_eq!(NamingStrategies::numerical(12, &tree, &[0]), "_12");
}

#[test]
fn zero_width_names_use_the_zero_width_alphabet() {
    let tree = empty_tree();
    assert_eq!(NamingStrategies::zero_width(0, &tree, &[0]), "\u{200C}");
    assert_eq!(NamingStrategies::zero_width(4, &tree, &[0]), "\u{200D}\u{200D}");
}

#[test]
fn sequential_names_use_the_given_alphabet() {
    let tree = empty_tree();
    let alphabet = vec!["x".to_string(), "y".to_string()];
    assert_eq!(NamingStrategies::sequential('_', &alphabet, 0, &tree, &[0]), "");
    assert_eq!(NamingStrategies::sequential('_', &alphabet, 1, &tree, &[0]), "y");
    assert_eq!(NamingStrategies::sequential('_', &alphabet, 2, &tree, &[0]), "yx");
}

#[test]
fn can_rename_only_declared_locals_parameters_and_loop_variables() {
    assert!(MinifyingUtils::can_rename(&variable("a", VariableKind::Local, true)));
    assert!(MinifyingUtils::can_rename(&variable("a", VariableKind::Parameter, true)));
    assert!(MinifyingUtils::can_rename(&variable("a", VariableKind::Iteration, true)));
    assert!(!MinifyingUtils::can_rename(&variable("a", VariableKind::Global, true)));
    assert!(!MinifyingUtils::can_rename(&variable("a", VariableKind::Local, false)));
}

#[test]
fn sorted_allocator_reuses_the_lowest_released_slot() {
    let mut a = SortedSlotAllocator::new();
    assert_eq!(a.allocate_slot(), 0);
    assert_eq!(a.allocate_slot(), 1);
    assert_eq!(a.allocate_slot(), 2);
    a.release_slot(2);
    a.release_slot(0);
    assert_eq!(a.allocate_slot(), 0);
    assert_eq!(a.allocate_slot(), 2);
    assert_eq!(a.allocate_slot(), 3);
}

#[test]
fn sequential_allocator_never_repeats() {
    let mut a = SequentialSlotAllocator::new();
    assert_eq!(a.allocate_slot(), 0);
    a.release_slot(0);
    assert_eq!(a.allocate_slot(), 1);
    assert_eq!(a.allocate_slot(), 2);
}

fn one_scope_script() -> Script {
    Script {
        variables: vec![
            ScriptVariable {
                variable: variable("first", VariableKind::Local, true),
                read_locations: vec![2],
                write_locations: vec![],
                declaration: Some(1),
            },
            ScriptVariable {
                variable: variable("second", VariableKind::Local, true),
                read_locations: vec![4, 5],
                write_locations: vec![],
                declaration: Some(3),
            },
            ScriptVariable {
                variable: variable("print", VariableKind::Global, false),
                read_locations: vec![6],
                write_locations: vec![],
                declaration: None,
            },
        ],
        identifiers: vec![(1, 0), (2, 0), (3, 1), (4, 1), (5, 1), (6, 2)],
    }
}

#[test]
fn rename_table_reuses_a_slot_after_the_last_use() {
    let tree = empty_tree();
    let naming = move |slot: i32, scopes: Vec<usize>| {
        NamingStrategies::alphabetical(slot, &tree, &scopes)
    };
    let mut table = RenameTable::new(one_scope_script(), naming, SortedSlotAllocator::new());
    table.prepare(&[(1, 6, 0), (2, 20, 0), (3, 30, 0), (4, 40, 0), (5, 50, 0), (6, 60, 0)]);
    assert_eq!(table.get_new_variable_name(1), Some("a".to_string()));
    assert_eq!(table.get_last_use(0), Some(2));
    assert_eq!(table.get_new_variable_name(2), Some("a".to_string()));
    assert_eq!(table.get_new_variable_name(3), Some("a".to_string()));
    assert_eq!(table.get_new_variable_name(4), Some("a".to_string()));
    assert_eq!(table.get_last_use(1), Some(5));
    assert_eq!(table.get_new_variable_name(6), None);
}

#[test]
fn rename_table_keeps_slots_with_the_sequential_allocator() {
    let tree = empty_tree();
    let naming = move |slot: i32, scopes: Vec<usize>| {
        NamingStrategies::alphabetical(slot, &tree, &scopes)
    };
    let mut rewriter =
        RenamingRewriter::new(one_scope_script(), naming, SequentialSlotAllocator::new());
    rewriter.rename_table.prepare(&[(1, 6, 0), (2, 20, 0), (3, 30, 0), (4, 40, 0), (5, 50, 0)]);
    assert_eq!(rewriter.rename_table.get_new_variable_name(1), Some("a".to_string()));
    assert_eq!(rewriter.rename_table.get_new_variable_name(2), Some("a".to_string()));
    assert_eq!(rewriter.rename_table.get_new_variable_name(3), Some("b".to_string()));
}

#[test]
fn last_use_falls_back_to_the_declaration() {
    let script = Script {
        variables: vec![ScriptVariable {
            variable: variable("x", VariableKind::Local, true),
            read_locations: vec![7],
            write_locations: vec![8],
            declaration: Some(9),
        }],
        identifiers: vec![(9, 0)],
    };
    let tree = empty_tree();
    let naming = move |slot: i32, scopes: Vec<usize>| {
        NamingStrategies::alphabetical(slot, &tree, &scopes)
    };
    let mut table = RenameTable::new(script, naming, SortedSlotAllocator::new());
    assert_eq!(table.get_last_use(0), Some(9));
    let mut fresh = RenameTable::new(
        Script {
            variables: vec![ScriptVariable {
                variable: variable("x", VariableKind::Local, true),
                read_locations: vec![7],
                write_locations: vec![8],
                declaration: Some(9),
            }],
            identifiers: vec![(9, 0)],
        },
        |slot: i32, _scopes: Vec<usize>| format!("v{slot}"),
        SortedSlotAllocator::new(),
    );
    fresh.prepare(&[(7, 10, 0), (8, 10, 0), (9, 1, 0)]);
    assert_eq!(fresh.get_last_use(0), Some(7));
}

#[test]
fn separators_keep_tokens_apart() {
    assert!(requires_separator(TokenKind::Identifier, "a", TokenKind::Keyword, "and"));
    assert!(requires_separator(TokenKind::NumericLiteral, "1", TokenKind::Identifier, "x"));
    assert!(requires_separator(
        TokenKind::NumericLiteral,
        "1",
        TokenKind::Operator(OperatorSymbol::TwoDots),
        ".."
    ));
    assert!(requires_separator(
        TokenKind::Operator(OperatorSymbol::Minus),
        "-",
        TokenKind::Operator(OperatorSymbol::Minus),
        "-"
    ));
    assert!(requires_separator(
        TokenKind::Operator(OperatorSymbol::LeftBracket),
        "[",
        TokenKind::StringLiteral,
        "[[x]]"
    ));
    assert!(!requires_separator(
        TokenKind::Operator(OperatorSymbol::LeftBracket),
        "[",
        TokenKind::StringLiteral,
        "\"x\""
    ));
    assert!(!requires_separator(
        TokenKind::Operator(OperatorSymbol::Plus),
        "+",
        TokenKind::Operator(OperatorSymbol::Minus),
        "-"
    ));
    assert!(!requires_separator(TokenKind::Identifier, "a", TokenKind::StringLiteral, "'s'"));
    assert!(!requires_separator(TokenKind::InterpolatedString, "`a`", TokenKind::Identifier, "x"));
}

#[test]
fn expression_flags_test_any_wanted_bit() {
    assert!(has_e_flag(FLAG_IS_NIL, FLAG_IS_SCALAR));
    assert!(has_e_flag(FLAG_IS_LONG, FLAG_IS_NUM));
    assert!(has_e_flag(FLAG_IS_STR, FLAG_IS_CONSTANT));
    assert!(!has_e_flag(FLAG_IS_NIL, FLAG_IS_NUM));
    assert!(!has_e_flag(0, FLAG_IS_CONSTANT));
}

#[test]
fn operator_kinds_number_in_declaration_order() {
    assert_eq!(BinaryOperatorKind::Unknown.value(), 0);
    assert_eq!(BinaryOperatorKind::Addition.value(), 1);
    assert_eq!(BinaryOperatorKind::Or.value(), 20);
    assert_eq!(UnaryOperatorKind::Unknown.value(), 0);
    assert_eq!(UnaryOperatorKind::BitwiseNot.value(), 4);
}
