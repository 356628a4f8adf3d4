//! The integer side of GW-BASIC's binary operators: what an operation
//! yields on two integer operands (true is -1, false is 0).

use vstd::prelude::*;
use vstd::arithmetic::power::pow;
use crate::ast::GwBinaryOperationKind;

verus! {

/// The BASIC value of a truth value: -1 for true, 0 for false.
pub fn bool_to_basic_value(b: bool) -> (r: i16)
    ensures
        r == if b {
            -1i16
        } else {
            0i16
        },
{
    if b {
        -1
    } else {
        0
    }
}

/// The operators with an integer operation (division is done on doubles).
pub open spec fn has_int_operation(kind: GwBinaryOperationKind) -> bool {
    match kind {
        GwBinaryOperationKind::Plus | GwBinaryOperationKind::Minus | GwBinaryOperationKind::Times
        | GwBinaryOperationKind::Exponent | GwBinaryOperationKind::Equal
        | GwBinaryOperationKind::Different | GwBinaryOperationKind::LessThan
        | GwBinaryOperationKind::GreaterThan | GwBinaryOperationKind::LessEqualThan
        | GwBinaryOperationKind::GreaterEqualThan => true,
        _ => false,
    }
}

/// `left` to the power `right`, 1 when `right` is not positive.
pub open spec fn int_power(left: int, right: int) -> int {
    if right <= 0 {
        1
    } else {
        pow(left, right as nat)
    }
}

/// The exact result of an integer operation.
pub open spec fn int_operation_spec(kind: GwBinaryOperationKind, left: int, right: int) -> int {
    match kind {
        GwBinaryOperationKind::Plus => left + right,
        GwBinaryOperationKind::Minus => left - right,
        GwBinaryOperationKind::Times => left * right,
        GwBinaryOperationKind::Exponent => int_power(left, right),
        GwBinaryOperationKind::Equal => if left == right {
            -1
        } else {
            0
        },
        GwBinaryOperationKind::Different => if left != right {
            -1
        } else {
            0
        },
        GwBinaryOperationKind::LessThan => if left < right {
            -1
        } else {
            0
        },
        GwBinaryOperationKind::GreaterThan => if left > right {
            -1
        } else {
            0
        },
        GwBinaryOperationKind::LessEqualThan => if left <= right {
            -1
        } else {
            0
        },
        GwBinaryOperationKind::GreaterEqualThan => if left >= right {
            -1
        } else {
            0
        },
        _ => 0,
    }
}

pub open spec fn fits_i16(v: int) -> bool {
    -32768 <= v <= 32767
}

/// Whether an integer operation stays within `i16`; a power is computed
/// by repeated multiplication, so every partial power must fit.
pub open spec fn int_operation_fits(kind: GwBinaryOperationKind, left: int, right: int) -> bool {
    match kind {
        GwBinaryOperationKind::Exponent => right < 32767 && forall|k: nat|
            k <= right ==> fits_i16(#[trigger] pow(left, k)),
        _ => fits_i16(int_operation_spec(kind, left, right)),
    }
}

/// The integer result of a binary operation on integer operands.
pub fn perform_int_operation(kind: GwBinaryOperationKind, left: i16, right: i16) -> (r: i16)
    requires
        has_int_operation(kind),
        int_operation_fits(kind, left as int, right as int),
    ensures
        r == int_operation_spec(kind, left as int, right as int),
{
    match kind {
        GwBinaryOperationKind::Plus => left + right,
        GwBinaryOperationKind::Minus => left - right,
        GwBinaryOperationKind::Times => left * right,
        GwBinaryOperationKind::Exponent => {
            let mut result: i16 = 1;
            let mut i: i16 = 1;
            proof {
                vstd::arithmetic::power::lemma_pow0(left as int);
            }
            while i < right + 1
                invariant
                    1 <= i,
                    right < 32767,
                    right >= 1 ==> i <= right + 1,
                    right < 1 ==> i == 1,
                    result == pow(left as int, (i - 1) as nat),
                    forall|k: nat| k <= right ==> fits_i16(#[trigger] pow(left as int, k)),
                decreases right + 1 - i,
            {
                proof {
                    vstd::arithmetic::power::lemma_pow_adds(left as int, (i - 1) as nat, 1);
                    vstd::arithmetic::power::lemma_pow1(left as int);
                    assert(fits_i16(pow(left as int, i as nat)));
                }
                result = result * left;
                i = i + 1;
            }
            result
        },
        GwBinaryOperationKind::Equal => bool_to_basic_value(left == right),
        GwBinaryOperationKind::Different => bool_to_basic_value(left != right),
        GwBinaryOperationKind::LessThan => bool_to_basic_value(left < right),
        GwBinaryOperationKind::GreaterThan => bool_to_basic_value(left > right),
        GwBinaryOperationKind::LessEqualThan => bool_to_basic_value(left <= right),
        GwBinaryOperationKind::GreaterEqualThan => bool_to_basic_value(left >= right),
        _ => 0,
    }
}

/// The integer result of a binary operation on integer operands, or
/// `None` where the result (or, for a power, a partial power) leaves
/// `i16`.
pub fn checked_int_operation(kind: GwBinaryOperationKind, left: i16, right: i16) -> (r: Option<i16>)
    requires
        has_int_operation(kind),
    ensures
        r is Some <==> int_operation_fits(kind, left as int, right as int),
        r is Some ==> r->0 == int_operation_spec(kind, left as int, right as int),
{
    match kind {
        GwBinaryOperationKind::Plus => left.checked_add(right),
        GwBinaryOperationKind::Minus => left.checked_sub(right),
        GwBinaryOperationKind::Times => left.checked_mul(right),
        GwBinaryOperationKind::Exponent => {
            if right >= 32767 {
                return None;
            }
            let mut result: i16 = 1;
            let mut i: i16 = 1;
            proof {
                vstd::arithmetic::power::lemma_pow0(left as int);
            }
            while i < right + 1
                invariant
                    kind is Exponent,
                    1 <= i,
                    right < 32767,
                    right >= 1 ==> i <= right + 1,
                    right < 1 ==> i == 1,
                    result == pow(left as int, (i - 1) as nat),
                    forall|k: nat| k < i ==> fits_i16(#[trigger] pow(left as int, k)),
                decreases right + 1 - i,
            {
                proof {
                    vstd::arithmetic::power::lemma_pow_adds(left as int, (i - 1) as nat, 1);
                    vstd::arithmetic::power::lemma_pow1(left as int);
                }
                match result.checked_mul(left) {
                    Some(v) => {
                        result = v;
                    },
                    None => {
                        assert(!fits_i16(pow(left as int, i as nat)));
                        return None;
                    },
                }
                i = i + 1;
            }
            assert forall|k: nat| k <= right implies fits_i16(#[trigger] pow(left as int, k)) by {
                if k > 0 {
                    assert(k < i);
                }
            }
            Some(result)
        },
        _ => Some(perform_int_operation(kind, left, right)),
    }
}

} // verus!
