use rgwbasic::ast::GwBinaryOperationKind;
use rgwbasic::operations::{bool_to_basic_value, checked_int_operation, perform_int_operation};

#[test]
fn truth_values_are_minus_one_and_zero() {
    assert_eq!(bool_to_basic_value(true), -1);
    assert_eq!(bool_to_basic_value(false), 0);
}

#[test]
fn integer_arithmetic() {
    assert_eq!(perform_int_operation(GwBinaryOperationKind::Plus, 2, 3), 5);
    assert_eq!(perform_int_operation(GwBinaryOperationKind::Minus, 2, 3), -1);
    assert_eq!(perform_int_operation(GwBinaryOperationKind::Times, -4, 3), -12);
    assert_eq!(perform_int_operation(GwBinaryOperationKind::Exponent, 2, 10), 1024);
    assert_eq!(perform_int_operation(GwBinaryOperationKind::Exponent, 7, 0), 1);
    assert_eq!(perform_int_operation(GwBinaryOperationKind::Exponent, 7, -2), 1);
    assert_eq!(perform_int_operation(GwBinaryOperationKind::Exponent, -3, 3), -27);
}

#[test]
fn integer_comparisons() {
    assert_eq!(perform_int_operation(GwBinaryOperationKind::Equal, 4, 4), -1);
    assert_eq!(perform_int_operation(GwBinaryOperationKind::Equal, 4, 5), 0);
    assert_eq!(perform_int_operation(GwBinaryOperationKind::Different, 4, 5), -1);
    assert_eq!(perform_int_operation(GwBinaryOperationKind::LessThan, 4, 5), -1);
    assert_eq!(perform_int_operation(GwBinaryOperationKind::GreaterThan, 4, 5), 0);
    assert_eq!(perform_int_operation(GwBinaryOperationKind::LessEqualThan, 5, 5), -1);
    assert_eq!(perform_int_operation(GwBinaryOperationKind::GreaterEqualThan, 4, 5), 0);
}

#[test]
fn checked_operations_agree_where_the_result_fits() {
    assert_eq!(checked_int_operation(GwBinaryOperationKind::Plus, 32000, 767), Some(32767));
    assert_eq!(checked_int_operation(GwBinaryOperationKind::Minus, -32000, 768), Some(-32768));
    assert_eq!(checked_int_operation(GwBinaryOperationKind::Times, 181, 181), Some(32761));
    assert_eq!(checked_int_operation(GwBinaryOperationKind::Exponent, 2, 14), Some(16384));
    assert_eq!(checked_int_operation(GwBinaryOperationKind::Exponent, -2, 15), Some(-32768));
    assert_eq!(checked_int_operation(GwBinaryOperationKind::LessThan, 1, 2), Some(-1));
}

#[test]
fn checked_operations_refuse_overflow() {
    assert_eq!(checked_int_operation(GwBinaryOperationKind::Plus, 32767, 1), None);
    assert_eq!(checked_int_operation(GwBinaryOperationKind::Minus, -32768, 1), None);
    assert_eq!(checked_int_operation(GwBinaryOperationKind::Times, 200, 200), None);
    assert_eq!(checked_int_operation(GwBinaryOperationKind::Exponent, 2, 15), None);
    assert_eq!(checked_int_operation(GwBinaryOperationKind::Exponent, 1, 32767), None);
}
