use rlang::{HaltReason, Instruction, Object, Process, ProcessBuilder, CALL_MAX, STACK_MAX};

#[test]
fn capacities() {
    assert_eq!(STACK_MAX, 32);
    assert_eq!(CALL_MAX, 32);
}

#[test]
fn a_new_process_has_an_empty_stack() {
    let code = vec![Instruction::LiteralUnsigned(1)];
    let process = Process::new(&code);
    assert!(process.stack().is_empty());
}

#[test]
fn no_budget_changes_nothing() {
    let code = vec![Instruction::LiteralUnsigned(1)];
    let mut process = Process::new(&code);
    assert_eq!(process.run(0), HaltReason::CycleLimit);
    assert!(process.stack().is_empty());
    assert_eq!(process.run(0), HaltReason::CycleLimit);
    assert_eq!(process.run(1), HaltReason::CycleLimit);
    assert_eq!(process.stack(), &*vec![Object::Unsigned(1)]);
    assert_eq!(process.run(0), HaltReason::CycleLimit);
    assert_eq!(process.stack(), &*vec![Object::Unsigned(1)]);
}

#[test]
fn an_empty_program_is_out_of_bounds() {
    let code: Vec<Instruction> = vec![];
    let mut process = Process::new(&code);
    assert_eq!(process.run(1), HaltReason::OutOfBounds);
    assert_eq!(process.run(64), HaltReason::OutOfBounds);
    assert!(process.stack().is_empty());
}

#[test]
fn the_budget_counts_completed_opcodes() {
    let code = vec![
        Instruction::LiteralUnsigned(1),
        Instruction::LiteralUnsigned(2),
        Instruction::AddUnsigned,
    ];
    let mut process = Process::new(&code);
    assert_eq!(process.run(2), HaltReason::CycleLimit);
    assert_eq!(process.stack(), &*vec![Object::Unsigned(1), Object::Unsigned(2)]);
    let mut process = Process::new(&code);
    assert_eq!(process.run(3), HaltReason::CycleLimit);
    assert_eq!(process.stack(), &*vec![Object::Unsigned(3)]);
    let mut process = Process::new(&code);
    assert_eq!(process.run(4), HaltReason::OutOfBounds);
    assert_eq!(process.stack(), &*vec![Object::Unsigned(3)]);
}

#[test]
fn a_halted_process_stays_halted() {
    let code = vec![Instruction::LiteralUnsigned(1), Instruction::AddUnsigned];
    let mut process = Process::new(&code);
    assert_eq!(process.run(64), HaltReason::StackUnderflow);
    assert!(process.stack().is_empty());
    assert_eq!(process.run(64), HaltReason::StackUnderflow);
    assert!(process.stack().is_empty());
}

#[test]
fn operand_stack_overflows_at_its_capacity() {
    let code = vec![Instruction::LiteralUnsigned(7); 40];
    let mut process = Process::new(&code);
    assert_eq!(process.run(32), HaltReason::CycleLimit);
    assert_eq!(process.stack().len(), 32);
    assert_eq!(process.run(64), HaltReason::StackOverflow);
    assert_eq!(process.stack(), &*vec![Object::Unsigned(7); 32]);
}

#[test]
fn a_full_stack_takes_no_literal_of_any_kind() {
    for op in [
        Instruction::LiteralUnsigned(1),
        Instruction::LiteralSigned(1),
        Instruction::LiteralBool(true),
        Instruction::LiteralIndexed(0),
        Instruction::PopSlot1,
    ] {
        let mut code = vec![Instruction::LiteralUnsigned(3), Instruction::PushSlot1];
        code.extend(vec![Instruction::LiteralSigned(-7); 32]);
        code.push(op);
        let literals = vec![Object::Bool(false)];
        let mut builder = ProcessBuilder::new(&code);
        let mut process = builder.literals(&literals).build();
        assert_eq!(process.run(64), HaltReason::StackOverflow);
        assert_eq!(process.stack(), &*vec![Object::Signed(-7); 32]);
    }
}

#[test]
fn a_full_stack_still_takes_an_operator() {
    let mut code = vec![Instruction::LiteralUnsigned(2); 32];
    code.push(Instruction::MultiplyUnsigned);
    code.push(Instruction::BitNot);
    let mut process = Process::new(&code);
    assert_eq!(process.run(64), HaltReason::OutOfBounds);
    assert_eq!(process.stack().len(), 31);
    assert_eq!(process.stack()[30], Object::Unsigned(!4u64));
}

#[test]
fn call_stack_overflows_at_its_capacity() {
    // The call at 1 goes to 0 again and again; each time a return address
    // is saved and never taken.
    let code = vec![Instruction::LiteralUnsigned(0), Instruction::Call];
    let mut process = Process::new(&code);
    assert_eq!(process.run(64), HaltReason::CycleLimit);
    assert!(process.stack().is_empty());
    assert_eq!(process.run(64), HaltReason::StackOverflow);
    // 32 calls were made: the operand pushed for the 33rd is still there.
    assert_eq!(process.stack(), &*vec![Object::Unsigned(0)]);
}

#[test]
fn call_stack_holds_exactly_its_capacity() {
    let code = vec![Instruction::LiteralUnsigned(0), Instruction::Call];
    let mut process = Process::new(&code);
    assert_eq!(process.run(2 * 32), HaltReason::CycleLimit);
    assert_eq!(process.run(1), HaltReason::CycleLimit);
    assert_eq!(process.run(1), HaltReason::StackOverflow);
}

#[test]
fn returns_unwind_every_call() {
    // 0: jump to the main part at 4.  2: the routine, which only returns.
    // The main part calls the routine three times.
    let code = vec![
        Instruction::LiteralUnsigned(4),
        Instruction::Branch,
        Instruction::Ret,
        Instruction::Ret,
        Instruction::LiteralUnsigned(2),
        Instruction::Call,
        Instruction::LiteralUnsigned(2),
        Instruction::Call,
        Instruction::LiteralUnsigned(2),
        Instruction::Call,
        Instruction::LiteralBool(true),
    ];
    let mut process = Process::new(&code);
    assert_eq!(process.run(64), HaltReason::OutOfBounds);
    assert_eq!(process.stack(), &*vec![Object::Bool(true)]);
}

#[test]
fn type_error_pushes_no_result() {
    let code = vec![
        Instruction::LiteralUnsigned(1),
        Instruction::LiteralSigned(1),
        Instruction::AddUnsigned,
    ];
    let mut process = Process::new(&code);
    assert_eq!(process.run(64), HaltReason::TypeError);
    assert_eq!(process.stack(), &*vec![Object::Unsigned(1)]);
}

#[test]
fn type_error_on_the_left_operand() {
    let code = vec![
        Instruction::LiteralBool(true),
        Instruction::LiteralSigned(1),
        Instruction::LiteralSigned(1),
        Instruction::LiteralUnsigned(1),
        Instruction::SubtractUnsigned,
    ];
    let mut process = Process::new(&code);
    assert_eq!(process.run(64), HaltReason::TypeError);
    assert_eq!(process.stack(), &*vec![Object::Bool(true), Object::Signed(1)]);
}

#[test]
fn every_operator_checks_its_tag() {
    let unsigned_ops = [
        Instruction::AddUnsigned,
        Instruction::SubtractUnsigned,
        Instruction::MultiplyUnsigned,
        Instruction::DivideUnsigned,
        Instruction::ModulusUnsigned,
        Instruction::BitAnd,
        Instruction::BitOr,
        Instruction::BitXor,
        Instruction::BitNot,
        Instruction::BitLShift,
        Instruction::BitRShift,
        Instruction::BitLRot,
        Instruction::BitRRot,
        Instruction::EqUnsigned,
        Instruction::NeqUnsigned,
        Instruction::GtUnsigned,
        Instruction::LtUnsigned,
        Instruction::GtEqUnsigned,
        Instruction::LtEqUnsigned,
        Instruction::Branch,
        Instruction::BranchTrue,
        Instruction::Call,
        Instruction::Intrinsic,
    ];
    let signed_ops = [
        Instruction::AddSigned,
        Instruction::SubtractSigned,
        Instruction::MultiplySigned,
        Instruction::DivideSigned,
        Instruction::ModulusSigned,
        Instruction::EqSigned,
        Instruction::NeqSigned,
        Instruction::GtSigned,
        Instruction::LtSigned,
        Instruction::GtEqSigned,
        Instruction::LtEqSigned,
    ];
    let bool_ops =
        [Instruction::LogAnd, Instruction::LogOr, Instruction::LogNot, Instruction::LogXor];
    for op in unsigned_ops {
        for wrong in [Instruction::LiteralSigned(1), Instruction::LiteralBool(true)] {
            let code = vec![Instruction::LiteralUnsigned(1), wrong, op];
            let mut process = Process::new(&code);
            assert_eq!(process.run(64), HaltReason::TypeError);
            assert_eq!(process.stack(), &*vec![Object::Unsigned(1)]);
        }
    }
    for op in signed_ops {
        for wrong in [Instruction::LiteralUnsigned(1), Instruction::LiteralBool(true)] {
            let code = vec![Instruction::LiteralSigned(1), wrong, op];
            let mut process = Process::new(&code);
            assert_eq!(process.run(64), HaltReason::TypeError);
            assert_eq!(process.stack(), &*vec![Object::Signed(1)]);
        }
    }
    for op in bool_ops {
        for wrong in [Instruction::LiteralUnsigned(1), Instruction::LiteralSigned(1)] {
            let code = vec![Instruction::LiteralBool(true), wrong, op];
            let mut process = Process::new(&code);
            assert_eq!(process.run(64), HaltReason::TypeError);
            assert_eq!(process.stack(), &*vec![Object::Bool(true)]);
        }
    }
}

#[test]
fn every_operator_needs_its_operands() {
    let ops = [
        Instruction::AddUnsigned,
        Instruction::ModulusSigned,
        Instruction::BitNot,
        Instruction::LogNot,
        Instruction::LogXor,
        Instruction::GtEqSigned,
        Instruction::Branch,
        Instruction::BranchTrue,
        Instruction::Call,
        Instruction::PushSlot1,
        Instruction::PushSlot4,
        Instruction::Intrinsic,
    ];
    for op in ops {
        let code = vec![op];
        let mut process = Process::new(&code);
        assert_eq!(process.run(64), HaltReason::StackUnderflow);
        assert!(process.stack().is_empty());
    }
}

#[test]
fn a_binary_operator_with_one_operand() {
    let code = vec![Instruction::LiteralUnsigned(5), Instruction::MultiplyUnsigned];
    let mut process = Process::new(&code);
    assert_eq!(process.run(64), HaltReason::StackUnderflow);
    assert!(process.stack().is_empty());
}

fn run_in_parts(code: &[Instruction], first: u64, second: u64) -> (HaltReason, Vec<Object>) {
    let mut process = Process::new(code);
    assert_eq!(process.run(first), HaltReason::CycleLimit);
    let reason = process.run(second);
    (reason, process.stack().to_vec())
}

fn run_at_once(code: &[Instruction], budget: u64) -> (HaltReason, Vec<Object>) {
    let mut process = Process::new(code);
    let reason = process.run(budget);
    (reason, process.stack().to_vec())
}

#[test]
fn two_runs_are_one_run_of_the_sum() {
    // Counts down from 5 in slot 1, leaving each value on the stack.
    let code = vec![
        Instruction::LiteralUnsigned(5),
        Instruction::PushSlot1,
        Instruction::PopSlot1,
        Instruction::PopSlot1,
        Instruction::LiteralUnsigned(1),
        Instruction::SubtractUnsigned,
        Instruction::PushSlot1,
        Instruction::PopSlot1,
        Instruction::LiteralUnsigned(0),
        Instruction::NeqUnsigned,
        Instruction::LiteralUnsigned(2),
        Instruction::BranchTrue,
    ];
    let whole = run_at_once(&code, 1000);
    assert_eq!(whole.0, HaltReason::OutOfBounds);
    assert_eq!(
        whole.1,
        vec![
            Object::Unsigned(5),
            Object::Unsigned(4),
            Object::Unsigned(3),
            Object::Unsigned(2),
            Object::Unsigned(1),
        ]
    );
    for total in [0u64, 1, 7, 20, 51, 52, 53, 60] {
        let at_once = run_at_once(&code, total);
        for first in 0..=total {
            // The first part must end with the budget, not with a halt of
            // the program: the program halts in its cycle 53.
            if first < 53 {
                assert_eq!(run_in_parts(&code, first, total - first), at_once);
            }
        }
    }
}

#[test]
fn commutative_operators_ignore_the_order() {
    let unsigned_ops = [
        Instruction::AddUnsigned,
        Instruction::MultiplyUnsigned,
        Instruction::BitAnd,
        Instruction::BitOr,
        Instruction::BitXor,
        Instruction::EqUnsigned,
        Instruction::NeqUnsigned,
    ];
    for op in unsigned_ops {
        for (x, y) in [(3u16, 5u16), (0, 65535), (7, 7)] {
            let one = vec![Instruction::LiteralUnsigned(x), Instruction::LiteralUnsigned(y), op];
            let other = vec![Instruction::LiteralUnsigned(y), Instruction::LiteralUnsigned(x), op];
            assert_eq!(run_at_once(&one, 64), run_at_once(&other, 64));
            assert_eq!(run_at_once(&one, 64).1.len(), 1);
        }
    }
    let signed_ops = [
        Instruction::AddSigned,
        Instruction::MultiplySigned,
        Instruction::EqSigned,
        Instruction::NeqSigned,
    ];
    for op in signed_ops {
        for (x, y) in [(-3i16, 5i16), (0, -32768), (-7, -7)] {
            let one = vec![Instruction::LiteralSigned(x), Instruction::LiteralSigned(y), op];
            let other = vec![Instruction::LiteralSigned(y), Instruction::LiteralSigned(x), op];
            assert_eq!(run_at_once(&one, 64), run_at_once(&other, 64));
            assert_eq!(run_at_once(&one, 64).1.len(), 1);
        }
    }
    for op in [Instruction::LogAnd, Instruction::LogOr, Instruction::LogXor] {
        let one = vec![Instruction::LiteralBool(true), Instruction::LiteralBool(false), op];
        let other = vec![Instruction::LiteralBool(false), Instruction::LiteralBool(true), op];
        assert_eq!(run_at_once(&one, 64), run_at_once(&other, 64));
        assert_eq!(run_at_once(&one, 64).1.len(), 1);
    }
}

#[test]
fn the_first_pushed_is_the_left_operand() {
    let cases = [
        (Instruction::SubtractUnsigned, Object::Unsigned(100 - 7)),
        (Instruction::DivideUnsigned, Object::Unsigned(100 / 7)),
        (Instruction::ModulusUnsigned, Object::Unsigned(100 % 7)),
        (Instruction::BitLShift, Object::Unsigned(100 << 7)),
        (Instruction::BitRShift, Object::Unsigned(100 >> 7)),
        (Instruction::BitLRot, Object::Unsigned(100u64.rotate_left(7))),
        (Instruction::BitRRot, Object::Unsigned(100u64.rotate_right(7))),
        (Instruction::GtUnsigned, Object::Bool(true)),
        (Instruction::LtUnsigned, Object::Bool(false)),
        (Instruction::GtEqUnsigned, Object::Bool(true)),
        (Instruction::LtEqUnsigned, Object::Bool(false)),
    ];
    for (op, expected) in cases {
        let code = vec![Instruction::LiteralUnsigned(100), Instruction::LiteralUnsigned(7), op];
        assert_eq!(run_at_once(&code, 64), (HaltReason::OutOfBounds, vec![expected]));
    }
    let cases = [
        (Instruction::SubtractSigned, Object::Signed(-100 - 7)),
        (Instruction::DivideSigned, Object::Signed(-100 / 7)),
        (Instruction::ModulusSigned, Object::Signed(-100 % 7)),
        (Instruction::GtSigned, Object::Bool(false)),
        (Instruction::LtSigned, Object::Bool(true)),
        (Instruction::GtEqSigned, Object::Bool(false)),
        (Instruction::LtEqSigned, Object::Bool(true)),
    ];
    for (op, expected) in cases {
        let code = vec![Instruction::LiteralSigned(-100), Instruction::LiteralSigned(7), op];
        assert_eq!(run_at_once(&code, 64), (HaltReason::OutOfBounds, vec![expected]));
    }
}
