//! What the machine does, as mathematics.
//!
//! A [`Machine`] is the state of a process that changes while it runs; the
//! [`Tables`] are what the host lent it.  [`step`] says what one cycle does
//! to a machine, and [`runs_to`] says where a budget of cycles can lead.
//! How an intrinsic leaves the operand stack is the host's business, so a
//! run is described as a relation: wherever an intrinsic is invoked, any
//! operand stack that fits may come back.
use crate::instruction::{HaltReason, Instruction};
use crate::object::{Object, Tag};
use vstd::prelude::*;

verus! {

/// The capacity of the operand stack.
pub const STACK_MAX: usize = 32;

/// The capacity of the call stack.
pub const CALL_MAX: usize = 32;

/// The number of scratch slots.
pub const SCRATCH_SLOTS: usize = 4;

/// The read-only tables of a process.  Of the intrinsics only their number
/// matters to the machine.
pub struct Tables {
    pub code: Seq<Instruction>,
    pub literals: Seq<Object>,
    pub intrinsics: nat,
}

/// The state of a process between two opcodes.
pub struct Machine {
    /// The index in the code table of the next opcode.
    pub ip: usize,
    /// The operand stack, the top last.
    pub stack: Seq<Object>,
    /// The return addresses, the innermost call last.
    pub frames: Seq<usize>,
    /// The scratch slots, each either unset or holding one operand.
    pub scratch: Seq<Option<Object>>,
}

/// What a stack opcode makes of the operand stack: the new stack, or the
/// halt and the stack as the failed opcode left it.
pub enum Effect {
    Done(Seq<Object>),
    Fault(HaltReason, Seq<Object>),
}

/// What one cycle makes of a machine.
pub enum Step {
    /// The opcode completed and left the machine in this state.
    Next(Machine),
    /// The opcode halted the process and left the machine in this state.
    Halt(Machine, HaltReason),
    /// The opcode hands the operand stack of this state to the intrinsic
    /// of this index.  When the intrinsic returns, the machine goes on
    /// from [`Machine::resume`] of the stack that it left.
    Invoke(Machine, usize),
}

/// The value `v` as an unsigned operand, or nothing where it does not fit.
pub open spec fn fit_unsigned(v: int) -> Option<Object> {
    if 0 <= v <= u64::MAX {
        Some(Object::Unsigned(v as u64))
    } else {
        None
    }
}

/// The value `v` as a signed operand, or nothing where it does not fit.
pub open spec fn fit_signed(v: int) -> Option<Object> {
    if i64::MIN <= v <= i64::MAX {
        Some(Object::Signed(v as i64))
    } else {
        None
    }
}

/// The absolute value of `v`.
pub open spec fn magnitude(v: int) -> int {
    if v < 0 {
        -v
    } else {
        v
    }
}

/// The quotient of `a` by `b`, rounded towards zero.
pub open spec fn truncated_quotient(a: int, b: int) -> int
    recommends
        b != 0,
{
    let q = magnitude(a) / magnitude(b);
    if (a < 0) != (b < 0) {
        -q
    } else {
        q
    }
}

/// What is left of `a` after [`truncated_quotient`]: it has the sign of `a`.
pub open spec fn truncated_remainder(a: int, b: int) -> int
    recommends
        b != 0,
{
    let r = magnitude(a) % magnitude(b);
    if a < 0 {
        -r
    } else {
        r
    }
}

/// `x` with its bits moved `n` places to the left, those that leave at the
/// top coming back at the bottom.  Only `n` modulo 64 matters.
pub open spec fn rotate_left(x: u64, n: u64) -> u64 {
    let k = n % 64;
    if k == 0 {
        x
    } else {
        (x << k) | (x >> ((64 - k) as u64))
    }
}

/// `x` with its bits moved `n` places to the right, those that leave at
/// the bottom coming back at the top.  Only `n` modulo 64 matters.
pub open spec fn rotate_right(x: u64, n: u64) -> u64 {
    let k = n % 64;
    if k == 0 {
        x
    } else {
        (x >> k) | (x << ((64 - k) as u64))
    }
}

/// Whether `op` is one of the operators that take two operands.
pub open spec fn is_binary(op: Instruction) -> bool {
    match op {
        Instruction::LiteralUnsigned(_)
        | Instruction::LiteralSigned(_)
        | Instruction::LiteralBool(_)
        | Instruction::LiteralIndexed(_)
        | Instruction::BitNot
        | Instruction::LogNot
        | Instruction::Branch
        | Instruction::BranchTrue
        | Instruction::Call
        | Instruction::Ret
        | Instruction::PushSlot1
        | Instruction::PushSlot2
        | Instruction::PushSlot3
        | Instruction::PushSlot4
        | Instruction::PopSlot1
        | Instruction::PopSlot2
        | Instruction::PopSlot3
        | Instruction::PopSlot4
        | Instruction::Intrinsic => false,
        _ => true,
    }
}

/// The tag of both operands of the binary operator `op`.
pub open spec fn binary_tag(op: Instruction) -> Tag {
    match op {
        Instruction::AddSigned
        | Instruction::SubtractSigned
        | Instruction::MultiplySigned
        | Instruction::DivideSigned
        | Instruction::ModulusSigned
        | Instruction::EqSigned
        | Instruction::NeqSigned
        | Instruction::GtSigned
        | Instruction::LtSigned
        | Instruction::GtEqSigned
        | Instruction::LtEqSigned => Tag::Signed,
        Instruction::LogAnd | Instruction::LogOr | Instruction::LogXor => Tag::Bool,
        _ => Tag::Unsigned,
    }
}

/// The binary operators whose result does not depend on the order of
/// their operands.
pub open spec fn is_commutative(op: Instruction) -> bool {
    match op {
        Instruction::AddUnsigned
        | Instruction::MultiplyUnsigned
        | Instruction::AddSigned
        | Instruction::MultiplySigned
        | Instruction::BitAnd
        | Instruction::BitOr
        | Instruction::BitXor
        | Instruction::LogAnd
        | Instruction::LogOr
        | Instruction::LogXor
        | Instruction::EqUnsigned
        | Instruction::NeqUnsigned
        | Instruction::EqSigned
        | Instruction::NeqSigned => true,
        _ => false,
    }
}

/// The result of `BitNot` on `a`: each of the 64 bits inverted.
pub open spec fn bit_not(a: Object) -> Object {
    Object::Unsigned(!a.unsigned())
}

/// The result of `LogNot` on `a`.
pub open spec fn log_not(a: Object) -> Object {
    Object::Bool(!a.truth())
}

/// The result of the binary operator `op` with `a` on its left and `b` on
/// its right, for operands of the operator's tag; nothing where the
/// operation is an arithmetic fault, and for an opcode that is no binary
/// operator.
///
/// The sum, difference or product is a fault where it does not fit the
/// tag.  A division or modulus is a fault where the divisor is zero, and
/// for signed operands also where the quotient does not fit.  A shift is a
/// fault where the amount is 64 or more.  Signed division rounds towards
/// zero, and the signed modulus has the sign of the dividend.
pub open spec fn binary(op: Instruction, a: Object, b: Object) -> Option<Object> {
    match op {
        Instruction::AddUnsigned => fit_unsigned(a.unsigned() + b.unsigned()),
        Instruction::SubtractUnsigned => fit_unsigned(a.unsigned() - b.unsigned()),
        Instruction::MultiplyUnsigned => fit_unsigned(a.unsigned() * b.unsigned()),
        Instruction::DivideUnsigned => if b.unsigned() == 0 {
            None
        } else {
            Some(Object::Unsigned(a.unsigned() / b.unsigned()))
        },
        Instruction::ModulusUnsigned => if b.unsigned() == 0 {
            None
        } else {
            Some(Object::Unsigned(a.unsigned() % b.unsigned()))
        },
        Instruction::AddSigned => fit_signed(a.signed() + b.signed()),
        Instruction::SubtractSigned => fit_signed(a.signed() - b.signed()),
        Instruction::MultiplySigned => fit_signed(a.signed() * b.signed()),
        Instruction::DivideSigned => if b.signed() == 0 {
            None
        } else {
            fit_signed(truncated_quotient(a.signed() as int, b.signed() as int))
        },
        Instruction::ModulusSigned => if b.signed() == 0 || (a.signed() == i64::MIN && b.signed()
            == -1) {
            None
        } else {
            fit_signed(truncated_remainder(a.signed() as int, b.signed() as int))
        },
        Instruction::BitAnd => Some(Object::Unsigned(a.unsigned() & b.unsigned())),
        Instruction::BitOr => Some(Object::Unsigned(a.unsigned() | b.unsigned())),
        Instruction::BitXor => Some(Object::Unsigned(a.unsigned() ^ b.unsigned())),
        Instruction::BitLShift => if b.unsigned() < 64 {
            Some(Object::Unsigned(a.unsigned() << b.unsigned()))
        } else {
            None
        },
        Instruction::BitRShift => if b.unsigned() < 64 {
            Some(Object::Unsigned(a.unsigned() >> b.unsigned()))
        } else {
            None
        },
        Instruction::BitLRot => Some(Object::Unsigned(rotate_left(a.unsigned(), b.unsigned()))),
        Instruction::BitRRot => Some(Object::Unsigned(rotate_right(a.unsigned(), b.unsigned()))),
        Instruction::LogAnd => Some(Object::Bool(a.truth() && b.truth())),
        Instruction::LogOr => Some(Object::Bool(a.truth() || b.truth())),
        Instruction::LogXor => Some(Object::Bool(a.truth() != b.truth())),
        Instruction::EqUnsigned => Some(Object::Bool(a.unsigned() == b.unsigned())),
        Instruction::NeqUnsigned => Some(Object::Bool(a.unsigned() != b.unsigned())),
        Instruction::GtUnsigned => Some(Object::Bool(a.unsigned() > b.unsigned())),
        Instruction::LtUnsigned => Some(Object::Bool(a.unsigned() < b.unsigned())),
        Instruction::GtEqUnsigned => Some(Object::Bool(a.unsigned() >= b.unsigned())),
        Instruction::LtEqUnsigned => Some(Object::Bool(a.unsigned() <= b.unsigned())),
        Instruction::EqSigned => Some(Object::Bool(a.signed() == b.signed())),
        Instruction::NeqSigned => Some(Object::Bool(a.signed() != b.signed())),
        Instruction::GtSigned => Some(Object::Bool(a.signed() > b.signed())),
        Instruction::LtSigned => Some(Object::Bool(a.signed() < b.signed())),
        Instruction::GtEqSigned => Some(Object::Bool(a.signed() >= b.signed())),
        Instruction::LtEqSigned => Some(Object::Bool(a.signed() <= b.signed())),
        _ => None,
    }
}

/// Pushing `value`: it goes on top, unless the stack is full.
pub open spec fn push_effect(stack: Seq<Object>, value: Object) -> Effect {
    if stack.len() < STACK_MAX {
        Effect::Done(stack.push(value))
    } else {
        Effect::Fault(HaltReason::StackOverflow, stack)
    }
}

/// Popping an operand of tag `tag`.  An empty stack is an underflow and
/// stays as it is.  Otherwise the top leaves the stack, also where its tag
/// is another one, which is a type error.
pub open spec fn pop_tagged(stack: Seq<Object>, tag: Tag) -> Result<
    (Object, Seq<Object>),
    (HaltReason, Seq<Object>),
> {
    if stack.len() == 0 {
        Err((HaltReason::StackUnderflow, stack))
    } else if stack.last().tag() == tag {
        Ok((stack.last(), stack.drop_last()))
    } else {
        Err((HaltReason::TypeError, stack.drop_last()))
    }
}

/// `BitNot`: pops its operand and pushes the result.
pub open spec fn bit_not_effect(stack: Seq<Object>) -> Effect {
    match pop_tagged(stack, Tag::Unsigned) {
        Err((why, rest)) => Effect::Fault(why, rest),
        Ok((a, rest)) => push_effect(rest, bit_not(a)),
    }
}

/// `LogNot`: pops its operand and pushes the result.
pub open spec fn log_not_effect(stack: Seq<Object>) -> Effect {
    match pop_tagged(stack, Tag::Bool) {
        Err((why, rest)) => Effect::Fault(why, rest),
        Ok((a, rest)) => push_effect(rest, log_not(a)),
    }
}

/// A binary operator: it pops its right operand, then its left operand,
/// and pushes the result.
pub open spec fn binary_effect(op: Instruction, stack: Seq<Object>) -> Effect {
    let tag = binary_tag(op);
    match pop_tagged(stack, tag) {
        Err((why, rest)) => Effect::Fault(why, rest),
        Ok((b, rest)) => match pop_tagged(rest, tag) {
            Err((why, rest)) => Effect::Fault(why, rest),
            Ok((a, rest)) => match binary(op, a, b) {
                None => Effect::Fault(HaltReason::ArithmeticFault, rest),
                Some(value) => push_effect(rest, value),
            },
        },
    }
}

/// Where a jump to `target` leads.  A target that no `usize` holds is past
/// the end of every code table, and so is `usize::MAX`, which stands for
/// it.
pub open spec fn jump_target(target: u64) -> usize {
    if target <= usize::MAX {
        target as usize
    } else {
        usize::MAX
    }
}

impl Machine {
    /// A process that has not run yet.
    pub open spec fn initial() -> Machine {
        Machine {
            ip: 0,
            stack: Seq::empty(),
            frames: Seq::empty(),
            scratch: Seq::new(SCRATCH_SLOTS as nat, |i: int| None),
        }
    }

    /// Both stacks are within their capacity, and there are four scratch
    /// slots.
    pub open spec fn bounded(self) -> bool {
        &&& self.stack.len() <= STACK_MAX
        &&& self.frames.len() <= CALL_MAX
        &&& self.scratch.len() == SCRATCH_SLOTS
    }

    /// The machine is bounded and each return address is the place of an
    /// opcode of `t`.
    pub open spec fn valid(self, t: Tables) -> bool {
        &&& self.bounded()
        &&& forall|i: int| 0 <= i < self.frames.len() ==> self.frames[i] < t.code.len()
    }

    /// The same machine with `stack` as its operand stack.
    pub open spec fn with_stack(self, stack: Seq<Object>) -> Machine {
        Machine { stack, ..self }
    }

    /// The same machine at the following opcode.
    pub open spec fn advance(self) -> Machine {
        Machine { ip: (self.ip + 1) as usize, ..self }
    }

    /// The machine after the intrinsic that it invoked has returned and
    /// left `stack`.
    pub open spec fn resume(self, stack: Seq<Object>) -> Machine {
        self.with_stack(stack).advance()
    }

    /// An opcode that has only the effect `effect` on the operand stack,
    /// and goes on to the following opcode where that is no fault.
    pub open spec fn conclude(self, effect: Effect) -> Step {
        match effect {
            Effect::Done(stack) => Step::Next(self.with_stack(stack).advance()),
            Effect::Fault(why, stack) => Step::Halt(self.with_stack(stack), why),
        }
    }

    /// `Branch`: pops the target and goes there.
    pub open spec fn branch(self) -> Step {
        match pop_tagged(self.stack, Tag::Unsigned) {
            Err((why, rest)) => Step::Halt(self.with_stack(rest), why),
            Ok((target, rest)) => Step::Next(
                Machine { ip: jump_target(target.unsigned()), stack: rest, ..self },
            ),
        }
    }

    /// `BranchTrue`: pops the target, then the predicate below it, and
    /// goes to the target where the predicate holds, else to the
    /// following opcode.
    pub open spec fn branch_true(self) -> Step {
        match pop_tagged(self.stack, Tag::Unsigned) {
            Err((why, rest)) => Step::Halt(self.with_stack(rest), why),
            Ok((target, rest)) => match pop_tagged(rest, Tag::Bool) {
                Err((why, rest)) => Step::Halt(self.with_stack(rest), why),
                Ok((taken, rest)) => if taken.truth() {
                    Step::Next(Machine { ip: jump_target(target.unsigned()), stack: rest, ..self })
                } else {
                    Step::Next(self.with_stack(rest).advance())
                },
            },
        }
    }

    /// `Call`: saves the place of the `Call` itself as the return address,
    /// then pops the target and goes there.  The return address stays
    /// saved where the pop fails.
    pub open spec fn call(self) -> Step {
        if self.frames.len() >= CALL_MAX {
            Step::Halt(self, HaltReason::StackOverflow)
        } else {
            let saved = Machine { frames: self.frames.push(self.ip), ..self };
            match pop_tagged(saved.stack, Tag::Unsigned) {
                Err((why, rest)) => Step::Halt(saved.with_stack(rest), why),
                Ok((target, rest)) => Step::Next(
                    Machine { ip: jump_target(target.unsigned()), stack: rest, ..saved },
                ),
            }
        }
    }

    /// `Ret`: takes the innermost return address and goes on behind it.
    pub open spec fn ret(self) -> Step {
        if self.frames.len() == 0 {
            Step::Halt(self, HaltReason::StackUnderflow)
        } else {
            Step::Next(
                Machine {
                    ip: (self.frames.last() + 1) as usize,
                    frames: self.frames.drop_last(),
                    ..self
                },
            )
        }
    }

    /// The machine with the top of its operand stack moved into the slot.
    pub open spec fn stored(self, slot: int) -> Machine {
        Machine {
            stack: self.stack.drop_last(),
            scratch: self.scratch.update(slot, Some(self.stack.last())),
            ..self
        }
    }

    /// `PushSlot`: pops the top, whatever its tag, into the slot.
    pub open spec fn store(self, slot: int) -> Step {
        if self.stack.len() == 0 {
            Step::Halt(self, HaltReason::StackUnderflow)
        } else {
            Step::Next(self.stored(slot).advance())
        }
    }

    /// `PopSlot`: pushes what the slot holds; the slot keeps it.
    pub open spec fn load(self, slot: int) -> Step {
        match self.scratch[slot] {
            None => Step::Halt(self, HaltReason::EmptyScratch),
            Some(value) => self.conclude(push_effect(self.stack, value)),
        }
    }

    /// `Intrinsic`: pops the index and, where the table has it, invokes
    /// that intrinsic on the operand stack that is left.
    pub open spec fn intrinsic(self, count: nat) -> Step {
        match pop_tagged(self.stack, Tag::Unsigned) {
            Err((why, rest)) => Step::Halt(self.with_stack(rest), why),
            Ok((index, rest)) => if index.unsigned() < count {
                Step::Invoke(self.with_stack(rest), index.unsigned() as usize)
            } else {
                Step::Halt(self.with_stack(rest), HaltReason::InvalidIntrinsic)
            },
        }
    }
}

/// One cycle: the opcode at the instruction pointer is fetched and
/// executed.
pub open spec fn step(t: Tables, m: Machine) -> Step {
    if m.ip >= t.code.len() {
        Step::Halt(m, HaltReason::OutOfBounds)
    } else {
        let op = t.code[m.ip as int];
        match op {
            Instruction::LiteralUnsigned(x) => m.conclude(
                push_effect(m.stack, Object::Unsigned(x as u64)),
            ),
            Instruction::LiteralSigned(x) => m.conclude(
                push_effect(m.stack, Object::Signed(x as i64)),
            ),
            Instruction::LiteralBool(x) => m.conclude(push_effect(m.stack, Object::Bool(x))),
            Instruction::LiteralIndexed(i) => if i < t.literals.len() {
                m.conclude(push_effect(m.stack, t.literals[i as int]))
            } else {
                Step::Halt(m, HaltReason::InvalidLiteral)
            },
            Instruction::Branch => m.branch(),
            Instruction::BranchTrue => m.branch_true(),
            Instruction::Call => m.call(),
            Instruction::Ret => m.ret(),
            Instruction::Intrinsic => m.intrinsic(t.intrinsics),
            Instruction::PushSlot1 => m.store(0),
            Instruction::PushSlot2 => m.store(1),
            Instruction::PushSlot3 => m.store(2),
            Instruction::PushSlot4 => m.store(3),
            Instruction::PopSlot1 => m.load(0),
            Instruction::PopSlot2 => m.load(1),
            Instruction::PopSlot3 => m.load(2),
            Instruction::PopSlot4 => m.load(3),
            Instruction::BitNot => m.conclude(bit_not_effect(m.stack)),
            Instruction::LogNot => m.conclude(log_not_effect(m.stack)),
            _ => m.conclude(binary_effect(op, m.stack)),
        }
    }
}

/// A run of at most `cycles` cycles from `m` can end in the machine `end`
/// with the halt `reason`.
///
/// With no cycle left the run ends where it is, with `CycleLimit`.  An
/// opcode that halts ends the run with its reason.  Where an intrinsic is
/// invoked, the run goes on from any operand stack of at most
/// [`STACK_MAX`] operands.  A run that invokes no intrinsic has one end
/// only.
pub open spec fn runs_to(
    t: Tables,
    m: Machine,
    cycles: nat,
    end: Machine,
    reason: HaltReason,
) -> bool
    decreases cycles,
{
    if cycles == 0 {
        end == m && reason == HaltReason::CycleLimit
    } else {
        match step(t, m) {
            Step::Halt(halted, why) => end == halted && reason == why,
            Step::Next(next) => runs_to(t, next, (cycles - 1) as nat, end, reason),
            Step::Invoke(paused, _) => exists|reply: Seq<Object>|
                reply.len() <= STACK_MAX && runs_to(
                    t,
                    #[trigger] paused.resume(reply),
                    (cycles - 1) as nat,
                    end,
                    reason,
                ),
        }
    }
}

} // verus!
