//! The operators, computed.
use crate::instruction::Instruction;
use crate::object::{Object, Tag};
use crate::semantics::{
    binary, binary_tag, fit_signed, is_binary, magnitude, rotate_left, rotate_right,
    truncated_quotient, truncated_remainder,
};
use vstd::arithmetic::div_mod::{lemma_div_of0, lemma_mod_bound, lemma_small_mod};
use vstd::prelude::*;

verus! {

/// `x` rotated to the left by `n` places.
fn rotated_left(x: u64, n: u64) -> (r: u64)
    ensures
        r == rotate_left(x, n),
{
    let k: u64 = n % 64;
    if k == 0 {
        x
    } else {
        (x << k) | (x >> (64 - k))
    }
}

/// `x` rotated to the right by `n` places.
fn rotated_right(x: u64, n: u64) -> (r: u64)
    ensures
        r == rotate_right(x, n),
{
    let k: u64 = n % 64;
    if k == 0 {
        x
    } else {
        (x >> k) | (x << (64 - k))
    }
}

/// A binary operator on unsigned operands, `x` on its left.
pub(crate) fn evaluate_unsigned(op: Instruction, x: u64, y: u64) -> (r: Option<Object>)
    requires
        is_binary(op),
        binary_tag(op) == Tag::Unsigned,
    ensures
        r == binary(op, Object::Unsigned(x), Object::Unsigned(y)),
{
    match op {
        Instruction::AddUnsigned => match x.checked_add(y) {
            Some(v) => Some(Object::Unsigned(v)),
            None => None,
        },
        Instruction::SubtractUnsigned => match x.checked_sub(y) {
            Some(v) => Some(Object::Unsigned(v)),
            None => None,
        },
        Instruction::MultiplyUnsigned => match x.checked_mul(y) {
            Some(v) => Some(Object::Unsigned(v)),
            None => None,
        },
        Instruction::DivideUnsigned => if y == 0 {
            None
        } else {
            Some(Object::Unsigned(x / y))
        },
        Instruction::ModulusUnsigned => if y == 0 {
            None
        } else {
            Some(Object::Unsigned(x % y))
        },
        Instruction::BitAnd => Some(Object::Unsigned(x & y)),
        Instruction::BitOr => Some(Object::Unsigned(x | y)),
        Instruction::BitXor => Some(Object::Unsigned(x ^ y)),
        Instruction::BitLShift => if y < 64 {
            Some(Object::Unsigned(x << y))
        } else {
            None
        },
        Instruction::BitRShift => if y < 64 {
            Some(Object::Unsigned(x >> y))
        } else {
            None
        },
        Instruction::BitLRot => Some(Object::Unsigned(rotated_left(x, y))),
        Instruction::BitRRot => Some(Object::Unsigned(rotated_right(x, y))),
        Instruction::EqUnsigned => Some(Object::Bool(x == y)),
        Instruction::NeqUnsigned => Some(Object::Bool(x != y)),
        Instruction::GtUnsigned => Some(Object::Bool(x > y)),
        Instruction::LtUnsigned => Some(Object::Bool(x < y)),
        Instruction::GtEqUnsigned => Some(Object::Bool(x >= y)),
        Instruction::LtEqUnsigned => Some(Object::Bool(x <= y)),
        _ => None,
    }
}

/// The checked division of the machine integers rounds towards zero.
proof fn lemma_checked_div_truncates(x: i64, y: i64)
    requires
        y != 0,
    ensures
        match x.checked_div(y) {
            Some(v) => fit_signed(truncated_quotient(x as int, y as int)) == Some(
                Object::Signed(v),
            ),
            None => fit_signed(truncated_quotient(x as int, y as int)).is_none(),
        },
{
    if x == 0 {
        lemma_div_of0(magnitude(y as int));
    }
}

/// The checked remainder of the machine integers has the sign of the
/// dividend.
proof fn lemma_checked_rem_truncates(x: i64, y: i64)
    requires
        y != 0,
        !(x == i64::MIN && y == -1),
    ensures
        x.checked_rem(y).is_some(),
        fit_signed(truncated_remainder(x as int, y as int)) == Some(
            Object::Signed(x.checked_rem(y).unwrap()),
        ),
{
    lemma_mod_bound(magnitude(x as int), magnitude(y as int));
    if x == 0 {
        lemma_small_mod(0, magnitude(y as int) as nat);
    }
}

/// A binary operator on signed operands, `x` on its left.
pub(crate) fn evaluate_signed(op: Instruction, x: i64, y: i64) -> (r: Option<Object>)
    requires
        is_binary(op),
        binary_tag(op) == Tag::Signed,
    ensures
        r == binary(op, Object::Signed(x), Object::Signed(y)),
{
    match op {
        Instruction::AddSigned => match x.checked_add(y) {
            Some(v) => Some(Object::Signed(v)),
            None => None,
        },
        Instruction::SubtractSigned => match x.checked_sub(y) {
            Some(v) => Some(Object::Signed(v)),
            None => None,
        },
        Instruction::MultiplySigned => match x.checked_mul(y) {
            Some(v) => Some(Object::Signed(v)),
            None => None,
        },
        Instruction::DivideSigned => {
            proof {
                if y != 0 {
                    lemma_checked_div_truncates(x, y);
                }
            }
            match x.checked_div(y) {
                Some(v) => Some(Object::Signed(v)),
                None => None,
            }
        },
        Instruction::ModulusSigned => {
            proof {
                if y != 0 && !(x == i64::MIN && y == -1) {
                    lemma_checked_rem_truncates(x, y);
                }
            }
            match x.checked_rem(y) {
                Some(v) => Some(Object::Signed(v)),
                None => None,
            }
        },
        Instruction::EqSigned => Some(Object::Bool(x == y)),
        Instruction::NeqSigned => Some(Object::Bool(x != y)),
        Instruction::GtSigned => Some(Object::Bool(x > y)),
        Instruction::LtSigned => Some(Object::Bool(x < y)),
        Instruction::GtEqSigned => Some(Object::Bool(x >= y)),
        Instruction::LtEqSigned => Some(Object::Bool(x <= y)),
        _ => None,
    }
}

/// A binary operator on truth values, `x` on its left.
pub(crate) fn evaluate_bool(op: Instruction, x: bool, y: bool) -> (r: Option<Object>)
    requires
        is_binary(op),
        binary_tag(op) == Tag::Bool,
    ensures
        r == binary(op, Object::Bool(x), Object::Bool(y)),
{
    match op {
        Instruction::LogAnd => Some(Object::Bool(x && y)),
        Instruction::LogOr => Some(Object::Bool(x || y)),
        Instruction::LogXor => Some(Object::Bool(x != y)),
        _ => None,
    }
}

} // verus!
