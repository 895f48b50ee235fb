//! Decoding of the enumerated codes that the buff collection data uses.

use vstd::prelude::*;

use crate::fit::{BuffAggregateMode, BuffOperation};

verus! {

/// The aggregate modes the data knows: 0 and 1.
pub open spec fn known_aggregate_mode(code: i32) -> bool {
    0 <= code <= 1
}

pub open spec fn spec_aggregate_mode(code: i32) -> BuffAggregateMode {
    if code == 0 {
        BuffAggregateMode::Maximum
    } else {
        BuffAggregateMode::Minimum
    }
}

/// The aggregate mode a data code names: 0 keeps the maximum of the values
/// a buff receives, 1 the minimum.
pub fn aggregate_mode_from_code(code: i32) -> (res: BuffAggregateMode)
    requires
        known_aggregate_mode(code),
    ensures
        res == spec_aggregate_mode(code),
{
    if code == 0 {
        BuffAggregateMode::Maximum
    } else {
        BuffAggregateMode::Minimum
    }
}

/// The buff operations the data knows: 0 to 8.
pub open spec fn known_buff_operation(code: i32) -> bool {
    0 <= code <= 8
}

pub open spec fn spec_buff_operation(code: i32) -> BuffOperation {
    if code == 0 {
        BuffOperation::PreAssign
    } else if code == 1 {
        BuffOperation::PreMul
    } else if code == 2 {
        BuffOperation::PreDiv
    } else if code == 3 {
        BuffOperation::ModAdd
    } else if code == 4 {
        BuffOperation::ModSub
    } else if code == 5 {
        BuffOperation::PostMul
    } else if code == 6 {
        BuffOperation::PostDiv
    } else if code == 7 {
        BuffOperation::PostPercent
    } else {
        BuffOperation::PostAssign
    }
}

/// The buff operation a data code names, in the order pre-assign,
/// pre-multiply, pre-divide, add, subtract, post-multiply, post-divide,
/// post-percent, post-assign.
pub fn buff_operation_from_code(code: i32) -> (res: BuffOperation)
    requires
        known_buff_operation(code),
    ensures
        res == spec_buff_operation(code),
{
    match code {
        0 => BuffOperation::PreAssign,
        1 => BuffOperation::PreMul,
        2 => BuffOperation::PreDiv,
        3 => BuffOperation::ModAdd,
        4 => BuffOperation::ModSub,
        5 => BuffOperation::PostMul,
        6 => BuffOperation::PostDiv,
        7 => BuffOperation::PostPercent,
        _ => BuffOperation::PostAssign,
    }
}

} // verus!
