//! What holds of every program and every budget.
use crate::instruction::{HaltReason, Instruction};
use crate::object::{Object, Tag};
use crate::semantics::{
    binary, binary_tag, is_binary, is_commutative, pop_tagged, rotate_left, rotate_right, runs_to,
    step, Machine, Step, Tables, CALL_MAX, SCRATCH_SLOTS, STACK_MAX,
};
use vstd::prelude::*;

verus! {

/// The opcode at the instruction pointer of `m` pushes an operand and pops
/// none: a literal, a literal of the pool that exists, or a read of a
/// scratch slot that is set.
pub open spec fn produces(t: Tables, m: Machine) -> bool {
    &&& m.ip < t.code.len()
    &&& m.scratch.len() == SCRATCH_SLOTS
    &&& match t.code[m.ip as int] {
        Instruction::LiteralUnsigned(_) | Instruction::LiteralSigned(_) | Instruction::LiteralBool(
            _,
        ) => true,
        Instruction::LiteralIndexed(i) => i < t.literals.len(),
        Instruction::PopSlot1 => m.scratch[0].is_some(),
        Instruction::PopSlot2 => m.scratch[1].is_some(),
        Instruction::PopSlot3 => m.scratch[2].is_some(),
        Instruction::PopSlot4 => m.scratch[3].is_some(),
        _ => false,
    }
}

/// The program that pushes `a`, then `b`, and then executes `op`.  The two
/// operands come from the literal pool, so that they can be any operands.
pub open spec fn operator_program(op: Instruction, a: Object, b: Object) -> Tables {
    Tables {
        code: seq![Instruction::LiteralIndexed(0), Instruction::LiteralIndexed(1), op],
        literals: seq![a, b],
        intrinsics: 0,
    }
}

/// No opcode halts with `CycleLimit`: that is the halt of the budget
/// alone.
pub proof fn lemma_step_never_hits_the_limit(t: Tables, m: Machine)
    ensures
        step(t, m) matches Step::Halt(_, why) ==> why != HaltReason::CycleLimit,
{
}

/// One cycle of a valid machine leaves a valid machine: the operand stack
/// holds at most `STACK_MAX` operands and the call stack at most
/// `CALL_MAX` return addresses, whatever the program.  An intrinsic is
/// invoked only where the table has it, and the machine that resumes
/// after it is valid again.
pub proof fn lemma_step_keeps_valid(t: Tables, m: Machine)
    requires
        m.valid(t),
    ensures
        match step(t, m) {
            Step::Next(next) => next.valid(t),
            Step::Halt(halted, _) => halted.valid(t),
            Step::Invoke(paused, index) => {
                &&& paused.valid(t)
                &&& index < t.intrinsics
                &&& forall|reply: Seq<Object>|
                    reply.len() <= STACK_MAX ==> (#[trigger] paused.resume(reply)).valid(t)
            },
        },
{
}

/// A run from a valid machine ends in a valid machine: at no halt does
/// either stack hold more than its capacity.
pub proof fn lemma_run_keeps_valid(
    t: Tables,
    m: Machine,
    cycles: nat,
    end: Machine,
    reason: HaltReason,
)
    requires
        m.valid(t),
        runs_to(t, m, cycles, end, reason),
    ensures
        end.valid(t),
    decreases cycles,
{
    if cycles > 0 {
        lemma_step_keeps_valid(t, m);
        match step(t, m) {
            Step::Halt(_, _) => {},
            Step::Next(next) => {
                lemma_run_keeps_valid(t, next, (cycles - 1) as nat, end, reason);
            },
            Step::Invoke(paused, _) => {
                let reply = choose|reply: Seq<Object>|
                    reply.len() <= STACK_MAX && runs_to(
                        t,
                        #[trigger] paused.resume(reply),
                        (cycles - 1) as nat,
                        end,
                        reason,
                    );
                lemma_run_keeps_valid(t, paused.resume(reply), (cycles - 1) as nat, end, reason);
            },
        }
    }
}

/// An opcode that would push onto a full operand stack halts with
/// `StackOverflow` and changes nothing.
pub proof fn lemma_full_stack_overflows(t: Tables, m: Machine)
    requires
        produces(t, m),
        m.stack.len() == STACK_MAX,
    ensures
        step(t, m) == Step::Halt(m, HaltReason::StackOverflow),
{
    assert(m.with_stack(m.stack) == m);
}

/// A `Call` with a full call stack halts with `StackOverflow` and changes
/// nothing.
pub proof fn lemma_full_call_stack_overflows(t: Tables, m: Machine)
    requires
        m.ip < t.code.len(),
        t.code[m.ip as int] == Instruction::Call,
        m.frames.len() == CALL_MAX,
    ensures
        step(t, m) == Step::Halt(m, HaltReason::StackOverflow),
{
}

/// An opcode that halts has pushed nothing: the operand stack of the
/// halted machine is what the last completed opcode left, less the
/// operands that the halting opcode had popped.  The instruction pointer
/// and the scratch slots are as they were.
pub proof fn lemma_halt_pushes_nothing(t: Tables, m: Machine)
    ensures
        step(t, m) matches Step::Halt(halted, _) ==> {
            &&& halted.ip == m.ip
            &&& halted.scratch == m.scratch
            &&& halted.stack.len() <= m.stack.len()
            &&& halted.stack == m.stack.subrange(0, halted.stack.len() as int)
        },
{
    if let Step::Halt(halted, _) = step(t, m) {
        let s = m.stack;
        assert(s.subrange(0, s.len() as int) =~= s);
        if s.len() >= 1 {
            assert(s.subrange(0, s.len() - 1) =~= s.drop_last());
        }
        if s.len() >= 2 {
            assert(s.subrange(0, s.len() - 2) =~= s.drop_last().drop_last());
        }
    }
}

/// With no cycle in the budget a run ends at once, with `CycleLimit`, in
/// the machine from which it started.
pub proof fn lemma_no_budget(t: Tables, m: Machine, end: Machine, reason: HaltReason)
    ensures
        runs_to(t, m, 0, end, reason) <==> (end == m && reason == HaltReason::CycleLimit),
{
}

/// With the instruction pointer past the last opcode, a run with any
/// budget ends at once, with `OutOfBounds`, in the machine from which it
/// started.
pub proof fn lemma_past_the_end(
    t: Tables,
    m: Machine,
    cycles: nat,
    end: Machine,
    reason: HaltReason,
)
    requires
        m.ip >= t.code.len(),
        cycles > 0,
    ensures
        runs_to(t, m, cycles, end, reason) <==> (end == m && reason == HaltReason::OutOfBounds),
{
}

/// A pop that finds an operand of another tag is a `TypeError`; the
/// operand has left the stack and nothing has taken its place.
pub proof fn lemma_mismatched_pop(stack: Seq<Object>, tag: Tag)
    requires
        stack.len() > 0,
        stack.last().tag() != tag,
    ensures
        pop_tagged(stack, tag) == Err::<(Object, Seq<Object>), (HaltReason, Seq<Object>)>(
            (HaltReason::TypeError, stack.drop_last()),
        ),
{
}

/// A binary operator that finds an operand of another tag than its own,
/// on top of the stack or below the top, halts with `TypeError`.  What it
/// popped is gone and no result is pushed.
pub proof fn lemma_mismatched_operand(t: Tables, m: Machine)
    requires
        m.ip < t.code.len(),
        is_binary(t.code[m.ip as int]),
        m.stack.len() >= 1,
    ensures
        m.stack.last().tag() != binary_tag(t.code[m.ip as int]) ==> step(t, m) == Step::Halt(
            m.with_stack(m.stack.drop_last()),
            HaltReason::TypeError,
        ),
        m.stack.len() >= 2 && m.stack.last().tag() == binary_tag(t.code[m.ip as int])
            && m.stack[m.stack.len() - 2].tag() != binary_tag(t.code[m.ip as int]) ==> step(t, m)
            == Step::Halt(
            m.with_stack(m.stack.drop_last().drop_last()),
            HaltReason::TypeError,
        ),
{
}

/// Every run ends: from every machine and with every budget there is a
/// machine and a halt in which a run can end.
pub proof fn lemma_run_ends(t: Tables, m: Machine, cycles: nat) -> (ending: (Machine, HaltReason))
    ensures
        runs_to(t, m, cycles, ending.0, ending.1),
    decreases cycles,
{
    if cycles == 0 {
        (m, HaltReason::CycleLimit)
    } else {
        match step(t, m) {
            Step::Halt(halted, why) => (halted, why),
            Step::Next(next) => lemma_run_ends(t, next, (cycles - 1) as nat),
            Step::Invoke(paused, _) => {
                let reply = Seq::<Object>::empty();
                let ending = lemma_run_ends(t, paused.resume(reply), (cycles - 1) as nat);
                assert(runs_to(t, paused.resume(reply), (cycles - 1) as nat, ending.0, ending.1));
                ending
            },
        }
    }
}

/// Running `a` cycles and then `b` cycles is running `a + b` cycles: where
/// a run of `a` cycles ends with `CycleLimit` in `middle`, and a run of
/// `b` cycles from `middle` ends in `end` with `reason`, a run of `a + b`
/// cycles from the start can end in `end` with `reason`.
pub proof fn lemma_run_split(
    t: Tables,
    m: Machine,
    a: nat,
    middle: Machine,
    b: nat,
    end: Machine,
    reason: HaltReason,
)
    requires
        runs_to(t, m, a, middle, HaltReason::CycleLimit),
        runs_to(t, middle, b, end, reason),
    ensures
        runs_to(t, m, a + b, end, reason),
    decreases a,
{
    if a > 0 {
        lemma_step_never_hits_the_limit(t, m);
        match step(t, m) {
            Step::Halt(_, _) => {},
            Step::Next(next) => {
                lemma_run_split(t, next, (a - 1) as nat, middle, b, end, reason);
            },
            Step::Invoke(paused, _) => {
                let reply = choose|reply: Seq<Object>|
                    reply.len() <= STACK_MAX && runs_to(
                        t,
                        #[trigger] paused.resume(reply),
                        (a - 1) as nat,
                        middle,
                        HaltReason::CycleLimit,
                    );
                lemma_run_split(t, paused.resume(reply), (a - 1) as nat, middle, b, end, reason);
                assert(runs_to(t, paused.resume(reply), (a + b - 1) as nat, end, reason));
            },
        }
    }
}

/// Running `a + b` cycles is running `a` cycles and then `b` cycles: a
/// run of `a + b` cycles either halts within its first `a` cycles, for
/// another reason than the budget, or it passes through a machine in
/// which a run of `a` cycles ends with `CycleLimit` and from which a run
/// of `b` cycles ends as the whole run does.
pub proof fn lemma_run_join(
    t: Tables,
    m: Machine,
    a: nat,
    b: nat,
    end: Machine,
    reason: HaltReason,
)
    requires
        runs_to(t, m, a + b, end, reason),
    ensures
        (reason != HaltReason::CycleLimit && runs_to(t, m, a, end, reason)) || exists|
            middle: Machine,
        |
            #[trigger] runs_to(t, m, a, middle, HaltReason::CycleLimit) && runs_to(
                t,
                middle,
                b,
                end,
                reason,
            ),
    decreases a,
{
    if a == 0 {
        assert(runs_to(t, m, a, m, HaltReason::CycleLimit));
    } else {
        lemma_step_never_hits_the_limit(t, m);
        match step(t, m) {
            Step::Halt(_, _) => {},
            Step::Next(next) => {
                lemma_run_join(t, next, (a - 1) as nat, b, end, reason);
                if !(reason != HaltReason::CycleLimit && runs_to(
                    t,
                    next,
                    (a - 1) as nat,
                    end,
                    reason,
                )) {
                    let middle = choose|middle: Machine|
                        #[trigger] runs_to(t, next, (a - 1) as nat, middle, HaltReason::CycleLimit)
                            && runs_to(t, middle, b, end, reason);
                    assert(runs_to(t, m, a, middle, HaltReason::CycleLimit));
                }
            },
            Step::Invoke(paused, _) => {
                let reply = choose|reply: Seq<Object>|
                    reply.len() <= STACK_MAX && runs_to(
                        t,
                        #[trigger] paused.resume(reply),
                        (a + b - 1) as nat,
                        end,
                        reason,
                    );
                let resumed = paused.resume(reply);
                lemma_run_join(t, resumed, (a - 1) as nat, b, end, reason);
                if !(reason != HaltReason::CycleLimit && runs_to(
                    t,
                    resumed,
                    (a - 1) as nat,
                    end,
                    reason,
                )) {
                    let middle = choose|middle: Machine|
                        #[trigger] runs_to(
                            t,
                            resumed,
                            (a - 1) as nat,
                            middle,
                            HaltReason::CycleLimit,
                        ) && runs_to(t, middle, b, end, reason);
                    assert(runs_to(t, m, a, middle, HaltReason::CycleLimit));
                }
            },
        }
    }
}

/// A run that invokes no intrinsic has one end only.
pub proof fn lemma_run_without_intrinsics_is_unique(
    t: Tables,
    m: Machine,
    cycles: nat,
    end1: Machine,
    reason1: HaltReason,
    end2: Machine,
    reason2: HaltReason,
)
    requires
        t.intrinsics == 0,
        runs_to(t, m, cycles, end1, reason1),
        runs_to(t, m, cycles, end2, reason2),
    ensures
        end1 == end2,
        reason1 == reason2,
    decreases cycles,
{
    if cycles > 0 {
        match step(t, m) {
            Step::Halt(_, _) => {},
            Step::Next(next) => {
                lemma_run_without_intrinsics_is_unique(
                    t,
                    next,
                    (cycles - 1) as nat,
                    end1,
                    reason1,
                    end2,
                    reason2,
                );
            },
            Step::Invoke(_, _) => {},
        }
    }
}

/// A commutative operator gives the same result, or the same fault, with
/// its operands in either order.
pub proof fn lemma_binary_commutes(op: Instruction, x: Object, y: Object)
    requires
        is_commutative(op),
    ensures
        binary(op, x, y) == binary(op, y, x),
{
    let a = x.unsigned();
    let b = y.unsigned();
    assert(a & b == b & a) by (bit_vector);
    assert(a | b == b | a) by (bit_vector);
    assert(a ^ b == b ^ a) by (bit_vector);
    assert(x.unsigned() * y.unsigned() == y.unsigned() * x.unsigned()) by (nonlinear_arith);
    assert(x.signed() * y.signed() == y.signed() * x.signed()) by (nonlinear_arith);
}

/// A rotation loses no bit: rotating to the right undoes rotating to the
/// left by the same amount, and the other way round.
pub proof fn lemma_rotations_invert(x: u64, n: u64)
    ensures
        rotate_right(rotate_left(x, n), n) == x,
        rotate_left(rotate_right(x, n), n) == x,
{
    let k = n % 64;
    if k != 0 {
        let j = (64 - k) as u64;
        assert(((x << k) | (x >> j)) >> k | ((x << k) | (x >> j)) << j == x) by (bit_vector)
            requires
                0 < k < 64,
                j == 64 - k,
        ;
        assert(((x >> k) | (x << j)) << k | ((x >> k) | (x << j)) >> j == x) by (bit_vector)
            requires
                0 < k < 64,
                j == 64 - k,
        ;
    }
}

/// A rotation by a multiple of 64 changes nothing, and only the amount
/// modulo 64 matters.
pub proof fn lemma_rotation_amount(x: u64, n: u64)
    ensures
        n % 64 == 0 ==> rotate_left(x, n) == x && rotate_right(x, n) == x,
        rotate_left(x, n) == rotate_left(x, n % 64),
        rotate_right(x, n) == rotate_right(x, n % 64),
{
}

/// The program `[push a; push b; op]`, run for three cycles or more,
/// leaves the result of `op` with `a` on its left and `b` on its right as
/// the only operand: the operand pushed first, which is popped second, is
/// the left one.  Where that operation is an arithmetic fault, the run
/// halts with it and leaves no operand.
pub proof fn lemma_operands_in_order(
    op: Instruction,
    a: Object,
    b: Object,
    cycles: nat,
    end: Machine,
    reason: HaltReason,
)
    requires
        is_binary(op),
        a.tag() == binary_tag(op),
        b.tag() == binary_tag(op),
        cycles >= 3,
        runs_to(operator_program(op, a, b), Machine::initial(), cycles, end, reason),
    ensures
        end.frames == Machine::initial().frames,
        end.scratch == Machine::initial().scratch,
        match binary(op, a, b) {
            Some(value) => {
                &&& end.ip == 3
                &&& end.stack == seq![value]
                &&& reason == if cycles == 3 {
                    HaltReason::CycleLimit
                } else {
                    HaltReason::OutOfBounds
                }
            },
            None => {
                &&& end.ip == 2
                &&& end.stack == Seq::<Object>::empty()
                &&& reason == HaltReason::ArithmeticFault
            },
        },
{
    let t = operator_program(op, a, b);
    let m0 = Machine::initial();
    let m1 = m0.with_stack(seq![a]).advance();
    let m2 = m1.with_stack(seq![a, b]).advance();
    assert(m0.stack.push(a) =~= seq![a]);
    assert(step(t, m0) == Step::Next(m1));
    assert(m1.stack.push(b) =~= seq![a, b]);
    assert(step(t, m1) == Step::Next(m2));
    assert(m2.stack.drop_last() =~= seq![a]);
    assert(m2.stack.drop_last().drop_last() =~= Seq::<Object>::empty());
    assert(runs_to(t, m1, (cycles - 1) as nat, end, reason));
    assert(runs_to(t, m2, (cycles - 2) as nat, end, reason));
    match binary(op, a, b) {
        Some(value) => {
            let m3 = m2.with_stack(seq![value]).advance();
            assert(Seq::<Object>::empty().push(value) =~= seq![value]);
            assert(step(t, m2) == Step::Next(m3));
            assert(runs_to(t, m3, (cycles - 3) as nat, end, reason));
            if cycles > 3 {
                lemma_past_the_end(t, m3, (cycles - 3) as nat, end, reason);
            }
        },
        None => {
            assert(step(t, m2) == Step::Halt(
                m2.with_stack(Seq::<Object>::empty()),
                HaltReason::ArithmeticFault,
            ));
        },
    }
}

/// For a commutative operator the programs `[push x; push y; op]` and
/// `[push y; push x; op]`, run for three cycles or more, end in the same
/// machine with the same halt: they leave the same top of stack.
pub proof fn lemma_commutative_programs(
    op: Instruction,
    x: Object,
    y: Object,
    cycles: nat,
    end1: Machine,
    reason1: HaltReason,
    end2: Machine,
    reason2: HaltReason,
)
    requires
        is_commutative(op),
        x.tag() == binary_tag(op),
        y.tag() == binary_tag(op),
        cycles >= 3,
        runs_to(operator_program(op, x, y), Machine::initial(), cycles, end1, reason1),
        runs_to(operator_program(op, y, x), Machine::initial(), cycles, end2, reason2),
    ensures
        end1 == end2,
        reason1 == reason2,
{
    lemma_binary_commutes(op, x, y);
    lemma_operands_in_order(op, x, y, cycles, end1, reason1);
    lemma_operands_in_order(op, y, x, cycles, end2, reason2);
}

} // verus!
