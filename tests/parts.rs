use regvm::ast::{BinaryOperator, UnaryOperator};
use regvm::bytecode::{BinaryOperation, ByteCode, Closure, UnaryOperation};
use regvm::number::Number;
use regvm::position::{Located, Position};

fn n(x: f64) -> Number {
    Number::from_bits(x.to_bits())
}

#[test]
fn precedence_layers() {
    assert_eq!(BinaryOperator::layer(0), Some(vec![BinaryOperator::Ampersand, BinaryOperator::Pipe]));
    assert_eq!(BinaryOperator::layer(4), Some(vec![BinaryOperator::Exponent]));
    assert_eq!(BinaryOperator::layer(5), None);
    assert_eq!(UnaryOperator::layer(0), Some(vec![UnaryOperator::Exclamation]));
    assert_eq!(UnaryOperator::layer(1), Some(vec![UnaryOperator::Minus]));
    assert_eq!(UnaryOperator::layer(2), None);
}

#[test]
fn operators_lower_to_operations() {
    assert_eq!(BinaryOperation::from(BinaryOperator::Percent), BinaryOperation::Mod);
    assert_eq!(BinaryOperation::from(BinaryOperator::GreaterEqual), BinaryOperation::GE);
    assert_eq!(UnaryOperation::from(UnaryOperator::Exclamation), UnaryOperation::Not);
    assert_eq!(ByteCode::default(), ByteCode::Nop);
}

#[test]
fn number_comparisons() {
    assert!(n(1.0).less_than(&n(2.0)));
    assert!(n(-3.0).less_than(&n(-2.0)));
    assert!(n(-1.0).less_than(&n(0.0)));
    assert!(!n(-0.0).less_than(&n(0.0)));
    assert!(n(-0.0).less_equal(&n(0.0)));
    assert!(n(f64::NEG_INFINITY).less_than(&n(-1e300)));
    assert!(!n(f64::NAN).less_equal(&n(f64::NAN)));
    assert!(!n(f64::NAN).less_than(&n(1.0)));
    assert!(n(0.0).zero() && n(-0.0).zero() && !n(1e-300).zero());
    assert!(n(f64::NAN).nan() && !n(f64::INFINITY).nan());
    assert_eq!(f64::from_bits(n(2.0).negate().to_bits()), -2.0);
}

#[test]
fn pools_deduplicate() {
    let mut c = Closure::new();
    assert_eq!(c.new_string("a".to_string()), Ok(0));
    assert_eq!(c.new_string("b".to_string()), Ok(1));
    assert_eq!(c.new_string("a".to_string()), Ok(0));
    assert_eq!(c.new_number(n(0.0)), Ok(0));
    assert_eq!(c.new_number(n(-0.0)), Ok(0));
    assert_eq!(c.new_number(n(f64::NAN)), Ok(1));
    assert_eq!(c.new_number(n(f64::NAN)), Ok(2));
    assert_eq!(c.new_closure(7), Ok(0));
    assert_eq!(c.new_closure(7), Ok(1));
    assert_eq!(c.string(1), Some(&"b".to_string()));
    assert_eq!(c.string(2), None);
    assert_eq!(c.closure(1), Some(&7));
}

#[test]
fn overwrite_keeps_position() {
    let mut c = Closure::new();
    let p = Position::new(4, 2);
    let a = c.write(ByteCode::Nop, p).unwrap();
    c.overwrite(a, ByteCode::Jump { addr: 9 });
    assert_eq!(c.code[0].value, ByteCode::Jump { addr: 9 });
    assert_eq!(c.code[0].pos, p);
}

#[test]
fn located_map_keeps_position() {
    let l = Located::new(3u32, Position::new(1, 5));
    let m = l.map(|x| x * 2);
    assert_eq!(m.value, 6);
    assert_eq!(m.pos, Position::new(1, 5));
}
