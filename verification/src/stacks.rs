//! The two bounded stacks of a process.
//!
//! Both are `heapless::Vec`s.  Verus does not look into that crate: what
//! a stack holds has a name here, and each method used gets a contract
//! over that name, which is taken on trust from the crate's source.
use crate::object::Object;
use crate::semantics::{CALL_MAX, STACK_MAX};
use vstd::prelude::*;

verus! {

/// A return address on the call stack.
#[derive(Debug, Clone, Copy)]
pub struct StackFrame {
    pub(crate) ip: usize,
}

/// `heapless::Vec<T, N>`, a vector of at most `N` items that lives where
/// it is declared.  Verus treats it as opaque.
#[verifier::external_type_specification]
#[verifier::external_body]
#[verifier::reject_recursive_types(T)]
pub struct ExHeaplessVec<T, const N: usize>(heapless::Vec<T, N>);

/// The operands that an operand stack holds, the top last.
pub uninterp spec fn operand_items(v: heapless::Vec<Object, STACK_MAX>) -> Seq<Object>;

/// The frames that a call stack holds, the innermost call last.
pub uninterp spec fn frame_items(v: heapless::Vec<StackFrame, CALL_MAX>) -> Seq<StackFrame>;

/// `heapless::Vec::new`: the vector it returns holds nothing.
#[verifier::external_body]
pub(crate) fn operands_new() -> (v: heapless::Vec<Object, STACK_MAX>)
    ensures
        operand_items(v) == Seq::<Object>::empty(),
{
    heapless::Vec::new()
}

/// `heapless::Vec::push`: where fewer than `STACK_MAX` operands are held,
/// `item` becomes the last of them and the call returns `true`; otherwise
/// nothing changes and it returns `false`.  It does not panic.
#[verifier::external_body]
pub(crate) fn operands_push(v: &mut heapless::Vec<Object, STACK_MAX>, item: Object) -> (r: bool)
    ensures
        r == (operand_items(*old(v)).len() < STACK_MAX),
        r ==> operand_items(*final(v)) == operand_items(*old(v)).push(item),
        !r ==> operand_items(*final(v)) == operand_items(*old(v)),
    no_unwind
{
    v.push(item).is_ok()
}

/// `heapless::Vec::pop`: the last operand leaves the vector and is
/// returned; an empty vector stays empty and gives `None`.  It does not
/// panic.
#[verifier::external_body]
pub(crate) fn operands_pop(v: &mut heapless::Vec<Object, STACK_MAX>) -> (r: Option<Object>)
    ensures
        operand_items(*old(v)).len() == 0 ==> r.is_none() && operand_items(*final(v))
            == operand_items(*old(v)),
        operand_items(*old(v)).len() > 0 ==> r == Some(operand_items(*old(v)).last())
            && operand_items(*final(v)) == operand_items(*old(v)).drop_last(),
    no_unwind
{
    v.pop()
}

/// `heapless::Vec::as_slice`: the slice holds the operands, in order.
#[verifier::external_body]
pub(crate) fn operands_as_slice(v: &heapless::Vec<Object, STACK_MAX>) -> (s: &[Object])
    ensures
        s@ == operand_items(*v),
{
    v.as_slice()
}

/// `heapless::Vec::new`: the vector it returns holds nothing.
#[verifier::external_body]
pub(crate) fn frames_new() -> (v: heapless::Vec<StackFrame, CALL_MAX>)
    ensures
        frame_items(v) == Seq::<StackFrame>::empty(),
{
    heapless::Vec::new()
}

/// `heapless::Vec::push`: where fewer than `CALL_MAX` frames are held,
/// `item` becomes the last of them and the call returns `true`; otherwise
/// nothing changes and it returns `false`.  It does not panic.
#[verifier::external_body]
pub(crate) fn frames_push(v: &mut heapless::Vec<StackFrame, CALL_MAX>, item: StackFrame) -> (r:
    bool)
    ensures
        r == (frame_items(*old(v)).len() < CALL_MAX),
        r ==> frame_items(*final(v)) == frame_items(*old(v)).push(item),
        !r ==> frame_items(*final(v)) == frame_items(*old(v)),
    no_unwind
{
    v.push(item).is_ok()
}

/// `heapless::Vec::pop`: the last frame leaves the vector and is returned;
/// an empty vector stays empty and gives `None`.  It does not panic.
#[verifier::external_body]
pub(crate) fn frames_pop(v: &mut heapless::Vec<StackFrame, CALL_MAX>) -> (r: Option<StackFrame>)
    ensures
        frame_items(*old(v)).len() == 0 ==> r.is_none() && frame_items(*final(v)) == frame_items(
            *old(v),
        ),
        frame_items(*old(v)).len() > 0 ==> r == Some(frame_items(*old(v)).last()) && frame_items(
            *final(v),
        ) == frame_items(*old(v)).drop_last(),
    no_unwind
{
    v.pop()
}

} // verus!
