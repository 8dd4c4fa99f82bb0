use loretta::experimental::constantfolder::{
    can_compare, compare_bytes, compare_longs, fold_concat, fold_logical, utf16_len, ConcatOperand,
    ConstantFolder, ExpressionShape, Side, TableField,
};
use loretta::experimental::constantfoldingoptions::ConstantFoldingOptions;
use loretta::experimental::expressionflags::{
    has_e_flag, FLAG_CAN_CONVERT_TO_BOOL, FLAG_IS_ANONYMOUS_FUNCTION, FLAG_IS_BOOL,
    FLAG_IS_CONSTANT, FLAG_IS_CONSTANT_TABLE, FLAG_IS_DOUBLE, FLAG_IS_FALSEY, FLAG_IS_LONG,
    FLAG_IS_NIL, FLAG_IS_NUM, FLAG_IS_STR, FLAG_IS_STRING_WITH_NUMBER, FLAG_IS_TRUTHY,
};
use loretta::luasyntaxoptions::LuaSyntaxOptions;

fn folder(extract: bool) -> ConstantFolder {
    let options = if extract {
        ConstantFoldingOptions::all()
    } else {
        ConstantFoldingOptions::default_preset()
    };
    ConstantFolder::new(options, LuaSyntaxOptions::lua51())
}

#[test]
fn flags_of_scalars() {
    let f = folder(false);
    assert_eq!(f.get_flags(ExpressionShape::Nil), FLAG_IS_NIL | FLAG_IS_FALSEY);
    assert_eq!(f.get_flags(ExpressionShape::Nil), 33);
    assert_eq!(f.get_flags(ExpressionShape::True), FLAG_IS_BOOL | FLAG_IS_TRUTHY);
    assert_eq!(f.get_flags(ExpressionShape::False), FLAG_IS_BOOL | FLAG_IS_FALSEY);
    assert_eq!(
        f.get_flags(ExpressionShape::Number { is_double: true }),
        FLAG_IS_DOUBLE | FLAG_IS_TRUTHY
    );
    assert_eq!(
        f.get_flags(ExpressionShape::Number { is_double: false }),
        FLAG_IS_LONG | FLAG_IS_TRUTHY
    );
    assert_eq!(
        f.get_flags(ExpressionShape::Function),
        FLAG_IS_ANONYMOUS_FUNCTION | FLAG_IS_TRUTHY
    );
    assert_eq!(f.get_flags(ExpressionShape::Other), 0);
}

#[test]
fn flags_of_strings_depend_on_extraction() {
    let shape = ExpressionShape::String { holds_number: true };
    assert_eq!(folder(false).get_flags(shape), FLAG_IS_STR | FLAG_IS_TRUTHY);
    let with_number = folder(true).get_flags(shape);
    assert_eq!(with_number, FLAG_IS_STR | FLAG_IS_STRING_WITH_NUMBER | FLAG_IS_TRUTHY);
    assert!(has_e_flag(with_number, FLAG_IS_NUM));
    let plain = folder(true).get_flags(ExpressionShape::String { holds_number: false });
    assert!(!has_e_flag(plain, FLAG_IS_NUM));
}

#[test]
fn flags_of_tables() {
    let f = folder(false);
    assert_eq!(
        f.get_flags(ExpressionShape::TableConstructor { constant_fields: true }),
        FLAG_IS_CONSTANT_TABLE
    );
    assert_eq!(f.get_flags(ExpressionShape::TableConstructor { constant_fields: false }), 0);
}

#[test]
fn const_tables_need_constant_fields() {
    let f = folder(false);
    let long = FLAG_IS_LONG | FLAG_IS_TRUTHY;
    let table = FLAG_IS_CONSTANT_TABLE;
    assert!(f.is_const_table(&vec![]));
    assert!(f.is_const_table(&vec![
        TableField::NameKey { value_flags: long },
        TableField::ExpressionKey { key_flags: long, value_flags: table },
        TableField::NoKey { value_flags: FLAG_IS_NIL | FLAG_IS_FALSEY },
    ]));
    assert!(!f.is_const_table(&vec![
        TableField::NoKey { value_flags: long },
        TableField::ExpressionKey { key_flags: 0, value_flags: long },
    ]));
    assert!(!f.is_const_table(&vec![TableField::SetConstructor]));
    assert!(ConstantFolder::is_const(FLAG_IS_CONSTANT));
    assert!(!ConstantFolder::is_const(FLAG_CAN_CONVERT_TO_BOOL));
}

#[test]
fn int32_values_lie_strictly_inside_the_range() {
    assert_eq!(ConstantFolder::try_get_int32(Some(5)), Some(5));
    assert_eq!(ConstantFolder::try_get_int32(Some(-7)), Some(-7));
    assert_eq!(ConstantFolder::try_get_int32(Some(2147483646)), Some(2147483646));
    assert_eq!(ConstantFolder::try_get_int32(Some(2147483647)), None);
    assert_eq!(ConstantFolder::try_get_int32(Some(-2147483648)), None);
    assert_eq!(ConstantFolder::try_get_int32(Some(1 << 40)), None);
    assert_eq!(ConstantFolder::try_get_int32(None), None);
}

#[test]
fn bool_conversion_follows_lua_truthiness() {
    assert_eq!(ConstantFolder::try_convert_to_bool(ExpressionShape::Nil), Some(false));
    assert_eq!(ConstantFolder::try_convert_to_bool(ExpressionShape::False), Some(false));
    assert_eq!(ConstantFolder::try_convert_to_bool(ExpressionShape::True), Some(true));
    assert_eq!(
        ConstantFolder::try_convert_to_bool(ExpressionShape::Number { is_double: false }),
        Some(true)
    );
    assert_eq!(
        ConstantFolder::try_convert_to_bool(ExpressionShape::String { holds_number: false }),
        Some(true)
    );
    assert_eq!(ConstantFolder::try_convert_to_bool(ExpressionShape::Function), Some(true));
    assert_eq!(ConstantFolder::try_convert_to_bool(ExpressionShape::Other), None);
    assert_eq!(
        ConstantFolder::try_convert_to_bool(ExpressionShape::TableConstructor {
            constant_fields: true
        }),
        None
    );
}

#[test]
fn truth_flags_agree_with_bool_conversion() {
    let shapes = [
        ExpressionShape::Nil,
        ExpressionShape::True,
        ExpressionShape::False,
        ExpressionShape::Number { is_double: true },
        ExpressionShape::String { holds_number: true },
        ExpressionShape::TableConstructor { constant_fields: true },
        ExpressionShape::Function,
        ExpressionShape::Other,
    ];
    for extract in [false, true] {
        let f = folder(extract);
        for shape in shapes {
            let flags = f.get_flags(shape);
            let b = ConstantFolder::try_convert_to_bool(shape);
            assert_eq!(has_e_flag(flags, FLAG_IS_TRUTHY), b == Some(true));
            assert_eq!(has_e_flag(flags, FLAG_IS_FALSEY), b == Some(false));
            assert_eq!(ConstantFolder::is_const(flags), shape != ExpressionShape::Other);
        }
    }
}

#[test]
fn numbers_and_strings_compare_among_themselves() {
    let long = FLAG_IS_LONG | FLAG_IS_TRUTHY;
    let double = FLAG_IS_DOUBLE | FLAG_IS_TRUTHY;
    let string = FLAG_IS_STR | FLAG_IS_TRUTHY;
    let nil = FLAG_IS_NIL | FLAG_IS_FALSEY;
    assert!(can_compare(long, double));
    assert!(can_compare(string, string));
    assert!(!can_compare(long, string));
    assert!(!can_compare(nil, nil));
    assert!(can_compare(string | FLAG_IS_STRING_WITH_NUMBER, long));
}

#[test]
fn utf16_length_counts_surrogate_pairs() {
    assert_eq!(utf16_len(""), 0);
    assert_eq!(utf16_len("hi"), 2);
    assert_eq!(utf16_len("é€"), 2);
    assert_eq!(utf16_len("a😀"), 3);
}

#[test]
fn concatenation_joins_literal_texts() {
    assert_eq!(fold_concat(&ConcatOperand::Str("foo".into()), &ConcatOperand::Str("bar".into())), "foobar");
    assert_eq!(fold_concat(&ConcatOperand::True, &ConcatOperand::Str("!".into())), "true!");
    assert_eq!(fold_concat(&ConcatOperand::Str("".into()), &ConcatOperand::False), "false");
}

#[test]
fn and_or_keep_the_operand_lua_keeps() {
    assert_eq!(fold_logical(true, ExpressionShape::True), Some(Side::Right));
    assert_eq!(fold_logical(true, ExpressionShape::Nil), Some(Side::Left));
    assert_eq!(fold_logical(false, ExpressionShape::False), Some(Side::Right));
    assert_eq!(fold_logical(false, ExpressionShape::Number { is_double: false }), Some(Side::Left));
    assert_eq!(fold_logical(true, ExpressionShape::Other), None);
}

#[test]
fn literals_compare_ordinally() {
    assert_eq!(compare_bytes(b"abc", b"abd"), -1);
    assert_eq!(compare_bytes(b"ab", b"abc"), -1);
    assert_eq!(compare_bytes(b"b", b"abc"), 1);
    assert_eq!(compare_bytes(b"same", b"same"), 0);
    assert_eq!(compare_bytes(b"", b""), 0);
    assert_eq!(compare_longs(-5, 3), -1);
    assert_eq!(compare_longs(7, 7), 0);
    assert_eq!(compare_longs(i64::MAX, i64::MIN), 1);
}
