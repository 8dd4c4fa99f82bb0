use loretta::experimental::binaryfold::{
    fold_binary, fold_unary, BinaryFold, FoldOperand, NumberValue, UnaryFold,
};
use loretta::operations::unaryoperatorkind::UnaryOperatorKind as Un;
use loretta::experimental::constantfolder::{ConcatOperand, ConstantFolder, ExpressionShape};
use loretta::experimental::constantfoldingoptions::ConstantFoldingOptions;
use loretta::luasyntaxoptions::LuaSyntaxOptions;
use loretta::operations::binaryoperatorkind::BinaryOperatorKind as Op;

fn folder() -> ConstantFolder {
    ConstantFolder::new(ConstantFoldingOptions::default_preset(), LuaSyntaxOptions::all())
}

fn long(v: i64) -> FoldOperand {
    FoldOperand {
        shape: ExpressionShape::Number { is_double: false },
        number: NumberValue::Long(v),
        int64: Some(v),
        string: None,
        concat: None,
    }
}

fn double() -> FoldOperand {
    FoldOperand {
        shape: ExpressionShape::Number { is_double: true },
        number: NumberValue::Double,
        int64: None,
        string: None,
        concat: None,
    }
}

fn string(s: &str) -> FoldOperand {
    FoldOperand {
        shape: ExpressionShape::String { holds_number: false },
        number: NumberValue::NotNumber,
        int64: None,
        string: Some(s.to_string()),
        concat: Some(ConcatOperand::Str(s.to_string())),
    }
}

fn boolean(b: bool) -> FoldOperand {
    FoldOperand {
        shape: if b { ExpressionShape::True } else { ExpressionShape::False },
        number: NumberValue::NotNumber,
        int64: None,
        string: None,
        concat: Some(if b { ConcatOperand::True } else { ConcatOperand::False }),
    }
}

fn nil() -> FoldOperand {
    FoldOperand {
        shape: ExpressionShape::Nil,
        number: NumberValue::NotNumber,
        int64: None,
        string: None,
        concat: None,
    }
}

fn other() -> FoldOperand {
    FoldOperand {
        shape: ExpressionShape::Other,
        number: NumberValue::NotNumber,
        int64: None,
        string: None,
        concat: None,
    }
}

fn fold(op: Op, l: &FoldOperand, r: &FoldOperand) -> BinaryFold {
    fold_binary(&folder(), op, l, r)
}

#[test]
fn fold_binary_arithmetic() {
    assert!(matches!(fold(Op::Addition, &long(1), &long(2)), BinaryFold::Long(3)));
    assert!(matches!(fold(Op::Subtraction, &long(1), &long(2)), BinaryFold::Long(-1)));
    assert!(matches!(fold(Op::Multiplication, &long(i64::MAX), &long(2)), BinaryFold::Long(-2)));
    assert!(matches!(fold(Op::Addition, &long(1), &double()), BinaryFold::NeedsFloat));
    assert!(matches!(fold(Op::Division, &long(1), &long(2)), BinaryFold::NeedsFloat));
    assert!(matches!(fold(Op::Modulus, &long(-7), &long(3)), BinaryFold::Long(-1)));
    assert!(matches!(fold(Op::Modulus, &long(7), &long(0)), BinaryFold::Keep));
    assert!(matches!(fold(Op::Modulus, &long(i64::MIN), &long(-1)), BinaryFold::Long(0)));
    assert!(matches!(fold(Op::Addition, &long(1), &other()), BinaryFold::Keep));
}

#[test]
fn fold_binary_concatenation() {
    match fold(Op::StringConcatenation, &string("foo"), &string("bar")) {
        BinaryFold::Str(s) => assert_eq!(s, "foobar"),
        _ => panic!("must fold"),
    }
    match fold(Op::StringConcatenation, &boolean(true), &string("!")) {
        BinaryFold::Str(s) => assert_eq!(s, "true!"),
        _ => panic!("must fold"),
    }
    assert!(matches!(fold(Op::StringConcatenation, &long(1), &string("a")), BinaryFold::Keep));
}

#[test]
fn fold_binary_comparisons() {
    assert!(matches!(fold(Op::Equals, &nil(), &nil()), BinaryFold::Bool(true)));
    assert!(matches!(fold(Op::Equals, &string("a"), &string("a")), BinaryFold::Bool(true)));
    assert!(matches!(fold(Op::NotEquals, &string("a"), &string("b")), BinaryFold::Bool(true)));
    assert!(matches!(fold(Op::Equals, &boolean(true), &boolean(false)), BinaryFold::Bool(false)));
    assert!(matches!(fold(Op::Equals, &long(2), &long(2)), BinaryFold::Bool(true)));
    assert!(matches!(fold(Op::Equals, &long(2), &double()), BinaryFold::NeedsFloat));
    assert!(matches!(fold(Op::Equals, &long(2), &string("2")), BinaryFold::Bool(false)));
    assert!(matches!(fold(Op::LessThan, &long(1), &long(2)), BinaryFold::Bool(true)));
    assert!(matches!(fold(Op::GreaterThanOrEqual, &long(1), &long(2)), BinaryFold::Bool(false)));
    assert!(matches!(fold(Op::LessThan, &string("ab"), &string("b")), BinaryFold::Bool(true)));
    assert!(matches!(fold(Op::LessThanOrEqual, &string("é"), &string("z")), BinaryFold::Bool(false)));
    assert!(matches!(fold(Op::LessThan, &double(), &long(1)), BinaryFold::NeedsFloat));
}

#[test]
fn and_or_bitwise_and_shifts_fold() {
    assert!(matches!(fold(Op::And, &boolean(true), &long(1)), BinaryFold::Right));
    assert!(matches!(fold(Op::And, &nil(), &long(1)), BinaryFold::Left));
    assert!(matches!(fold(Op::Or, &boolean(false), &long(1)), BinaryFold::Right));
    assert!(matches!(fold(Op::Or, &other(), &long(1)), BinaryFold::Keep));
    assert!(matches!(fold(Op::BitwiseAnd, &long(6), &long(3)), BinaryFold::Long(2)));
    assert!(matches!(fold(Op::BitwiseOr, &long(6), &long(3)), BinaryFold::Long(7)));
    assert!(matches!(fold(Op::ExclusiveOr, &long(6), &long(3)), BinaryFold::Long(5)));
    assert!(matches!(fold(Op::LeftShift, &long(1), &long(4)), BinaryFold::Long(16)));
    assert!(matches!(fold(Op::RightShift, &long(-16), &long(2)), BinaryFold::Long(-4)));
    assert!(matches!(fold(Op::LeftShift, &long(1), &long(65)), BinaryFold::Long(2)));
    assert!(matches!(fold(Op::LeftShift, &long(1), &long(i32::MAX as i64)), BinaryFold::Keep));
    assert!(matches!(fold(Op::Unknown, &long(1), &long(1)), BinaryFold::Keep));
}

#[test]
fn unary_operators_fold() {
    let f = folder();
    assert_eq!(fold_unary(&f, Un::Negation, &long(5)), UnaryFold::Long(-5));
    assert_eq!(fold_unary(&f, Un::Negation, &long(i64::MIN)), UnaryFold::Long(i64::MIN));
    assert_eq!(fold_unary(&f, Un::Negation, &double()), UnaryFold::NeedsFloat);
    assert_eq!(fold_unary(&f, Un::Not, &boolean(true)), UnaryFold::Bool(false));
    assert_eq!(fold_unary(&f, Un::Not, &nil()), UnaryFold::Bool(true));
    assert_eq!(fold_unary(&f, Un::Not, &other()), UnaryFold::Keep);
    assert_eq!(fold_unary(&f, Un::BitwiseNot, &long(0)), UnaryFold::Long(-1));
    assert_eq!(fold_unary(&f, Un::Length, &string("hi")), UnaryFold::Length(2));
    assert_eq!(fold_unary(&f, Un::Length, &string("a\u{1F600}")), UnaryFold::Length(3));
    assert_eq!(fold_unary(&f, Un::Length, &long(1)), UnaryFold::Keep);
}
