//! The process: the state of one guest program, and its interpreter.
use crate::alu::{evaluate_bool, evaluate_signed, evaluate_unsigned};
use crate::instruction::{HaltReason, Instruction};
use crate::object::{Object, Tag};
use crate::semantics::{
    binary_effect, binary_tag, bit_not_effect, is_binary, jump_target, log_not_effect,
    push_effect, runs_to, step, Effect, Machine, Step, Tables, CALL_MAX, SCRATCH_SLOTS, STACK_MAX,
};
use crate::stacks::{
    frame_items, frames_new, frames_pop, frames_push, operand_items, operands_as_slice,
    operands_new, operands_pop, operands_push, StackFrame,
};
use vstd::prelude::*;
use vstd::std_specs::convert::{FromSpecImpl, TryFromSpec};

verus! {

/// The intrinsic type of a process that has no intrinsics.  Invoked, it
/// does nothing.
#[derive(Debug, Clone, Copy)]
pub struct NoIntrinsics;

/// A callback of the host, invoked by the `Intrinsic` opcode.
///
/// It is handed a guest process that holds the operand stack of the
/// process that invoked it and nothing else of that process: no code, no
/// return address, no scratch slot.  The operand stack that the guest
/// holds when the callback returns is the one with which the invoking
/// process goes on.
///
/// Every function or closure that takes `&mut Process` is an intrinsic.
pub trait Intrinsic {
    /// The callback can be invoked on every guest.
    spec fn callable(&self) -> bool;

    /// Invokes the callback on `guest`.
    fn invoke(&self, guest: &mut Process<'static, NoIntrinsics>)
        requires
            self.callable(),
    ;
}

impl Intrinsic for NoIntrinsics {
    open spec fn callable(&self) -> bool {
        true
    }

    fn invoke(&self, guest: &mut Process<'static, NoIntrinsics>) {
    }
}

impl<F: Fn(&mut Process<'static, NoIntrinsics>)> Intrinsic for F {
    open spec fn callable(&self) -> bool {
        forall|guest: &mut Process<'static, NoIntrinsics>| call_requires(*self, (guest,))
    }

    fn invoke(&self, guest: &mut Process<'static, NoIntrinsics>)
        ensures
            exists|lent: &mut Process<'static, NoIntrinsics>|
                *lent == *old(guest) && *final(lent) == *final(guest) && #[trigger] call_ensures(
                    *self,
                    (lent,),
                    (),
                ),
    {
        // One call of the function, on the guest as it was handed over:
        // the guest is left as that call leaves it.
        self(guest)
    }
}

/// A function or closure that every guest meets the `requires` of is a
/// callable intrinsic.
pub proof fn lemma_callable<F: Fn(&mut Process<'static, NoIntrinsics>)>(f: F)
    requires
        forall|guest: &mut Process<'static, NoIntrinsics>| call_requires(f, (guest,)),
    ensures
        f.callable(),
{
}

/// One guest program in execution: its instruction pointer, operand stack,
/// call stack and scratch slots, and the tables that the host lent it.
pub struct Process<'a, F: Intrinsic = NoIntrinsics> {
    ip: usize,
    stack: heapless::Vec<Object, STACK_MAX>,
    callstack: heapless::Vec<StackFrame, CALL_MAX>,
    code: &'a [Instruction],
    scratch: [Option<Object>; SCRATCH_SLOTS],
    intrinsics: &'a [F],
    literals: &'a [Object],
}

/// Collects the tables of a process.
pub struct ProcessBuilder<'a, F: Intrinsic = NoIntrinsics> {
    code: &'a [Instruction],
    intrinsics: &'a [F],
    literals: &'a [Object],
}

/// A pop found the operand stack empty.
struct StackUnderflow {}

/// Why a pop that projects gave no value.
enum PopFail {
    StackUnderflow,
    TypeError,
}

impl From<StackUnderflow> for HaltReason {
    fn from(_x: StackUnderflow) -> (r: Self) {
        HaltReason::StackUnderflow
    }
}

impl FromSpecImpl<StackUnderflow> for HaltReason {
    open spec fn obeys_from_spec() -> bool {
        true
    }

    closed spec fn from_spec(_x: StackUnderflow) -> Self {
        HaltReason::StackUnderflow
    }
}

impl From<PopFail> for HaltReason {
    fn from(x: PopFail) -> (r: Self) {
        match x {
            PopFail::StackUnderflow => HaltReason::StackUnderflow,
            PopFail::TypeError => HaltReason::TypeError,
        }
    }
}

impl FromSpecImpl<PopFail> for HaltReason {
    open spec fn obeys_from_spec() -> bool {
        true
    }

    closed spec fn from_spec(x: PopFail) -> Self {
        match x {
            PopFail::StackUnderflow => HaltReason::StackUnderflow,
            PopFail::TypeError => HaltReason::TypeError,
        }
    }
}

/// Popping an operand and projecting it to `T`: what is returned, and the
/// stack that is left.  The top leaves the stack also where the
/// projection fails.
spec fn pop_typed<T: TryFrom<Object>>(stack: Seq<Object>) -> (Result<T, PopFail>, Seq<Object>) {
    if stack.len() == 0 {
        (Err(PopFail::StackUnderflow), stack)
    } else {
        match T::try_from_spec(stack.last()) {
            Ok(value) => (Ok(value), stack.drop_last()),
            Err(_) => (Err(PopFail::TypeError), stack.drop_last()),
        }
    }
}

/// Two pops of [`pop_typed`], the second only where the first gave a
/// value.
spec fn pop2_typed<T: TryFrom<Object>>(stack: Seq<Object>) -> (
    Result<(T, T), PopFail>,
    Seq<Object>,
) {
    match pop_typed::<T>(stack) {
        (Err(fail), rest) => (Err(fail), rest),
        (Ok(first), rest) => match pop_typed::<T>(rest) {
            (Err(fail), rest) => (Err(fail), rest),
            (Ok(second), rest) => (Ok((first, second)), rest),
        },
    }
}

/// An interpreter function that returned `r` and left the machine `after`
/// had the effect `effect` on the operand stack of `before`, and no other.
spec fn settles(
    before: Machine,
    effect: Effect,
    r: Result<(), HaltReason>,
    after: Machine,
) -> bool {
    match effect {
        Effect::Done(stack) => r.is_ok() && after == before.with_stack(stack),
        Effect::Fault(why, stack) => r == Err::<(), HaltReason>(why) && after == before.with_stack(
            stack,
        ),
    }
}

/// An interpreter function that returned `r` and left the machine `after`
/// made the step `step`.  Where the step invokes an intrinsic, the operand
/// stack of `after` is the one that the intrinsic left.
spec fn follows(step: Step, r: Result<(), HaltReason>, after: Machine) -> bool {
    match step {
        Step::Next(next) => r.is_ok() && after == next,
        Step::Halt(halted, why) => r == Err::<(), HaltReason>(why) && after == halted,
        Step::Invoke(paused, _) => r.is_ok() && after.stack.len() <= STACK_MAX && after
            == paused.resume(after.stack),
    }
}

/// Where a jump to `x` leads.
fn target(x: u64) -> (ip: usize)
    ensures
        ip == jump_target(x),
{
    if x > usize::MAX as u64 {
        usize::MAX
    } else {
        x as usize
    }
}

impl<'a> ProcessBuilder<'a, NoIntrinsics> {
    /// A builder for a process that runs `code`, so far without literals
    /// and without intrinsics.
    pub fn new(code: &'a [Instruction]) -> (builder: Self)
        ensures
            builder.code_table() == code@,
            builder.literal_table() == Seq::<Object>::empty(),
            builder.intrinsic_table() == Seq::<NoIntrinsics>::empty(),
    {
        let builder = ProcessBuilder { code, intrinsics: &[], literals: &[] };
        assert(builder.literal_table() =~= Seq::empty());
        builder
    }
}

impl<'a, F: Intrinsic> ProcessBuilder<'a, F> {
    /// Every intrinsic collected can be invoked on every guest.
    #[verifier::type_invariant]
    spec fn well_formed(self) -> bool {
        forall|i: int|
            0 <= i < self.intrinsics@.len() ==> (#[trigger] self.intrinsics@[i]).callable()
    }

    /// The code table collected.
    pub closed spec fn code_table(&self) -> Seq<Instruction> {
        self.code@
    }

    /// The literals table collected so far.
    pub closed spec fn literal_table(&self) -> Seq<Object> {
        self.literals@
    }

    /// The intrinsics table collected so far.
    pub closed spec fn intrinsic_table(&self) -> Seq<F> {
        self.intrinsics@
    }

    /// The tables collected so far, as the machine sees them.
    pub open spec fn tables(&self) -> Tables {
        Tables {
            code: self.code_table(),
            literals: self.literal_table(),
            intrinsics: self.intrinsic_table().len(),
        }
    }

    /// Replaces the intrinsics table.
    pub fn intrinsics<G: Intrinsic>(self, intrinsics: &'a [G]) -> (builder: ProcessBuilder<'a, G>)
        requires
            forall|i: int| 0 <= i < intrinsics@.len() ==> (#[trigger] intrinsics@[i]).callable(),
        ensures
            builder.code_table() == self.code_table(),
            builder.literal_table() == self.literal_table(),
            builder.intrinsic_table() == intrinsics@,
    {
        ProcessBuilder { code: self.code, intrinsics, literals: self.literals }
    }

    /// Replaces the literals table.
    pub fn literals(&mut self, literals: &'a [Object]) -> (builder: &mut Self)
        ensures
            builder.code_table() == old(self).code_table(),
            builder.literal_table() == literals@,
            builder.intrinsic_table() == old(self).intrinsic_table(),
            *final(self) == *final(builder),
    {
        proof {
            use_type_invariant(&*self);
        }
        self.literals = literals;
        self
    }

    /// A process over the tables collected, which has not run yet.
    pub fn build(&self) -> (process: Process<'a, F>)
        ensures
            process@ == Machine::initial(),
            process.code_table() == self.code_table(),
            process.literal_table() == self.literal_table(),
            process.intrinsic_table() == self.intrinsic_table(),
    {
        proof {
            use_type_invariant(self);
        }
        let process = Process {
            ip: 0,
            stack: operands_new(),
            callstack: frames_new(),
            code: self.code,
            intrinsics: self.intrinsics,
            scratch: [None;SCRATCH_SLOTS],
            literals: self.literals,
        };
        assert(process@.scratch =~= Machine::initial().scratch);
        assert(process@.frames =~= Machine::initial().frames);
        process
    }
}

impl<'a> Process<'a, NoIntrinsics> {
    /// A process that runs `code`, with no literals and no intrinsics,
    /// which has not run yet.
    pub fn new(code: &'a [Instruction]) -> (process: Self)
        ensures
            process@ == Machine::initial(),
            process.code_table() == code@,
            process.literal_table() == Seq::<Object>::empty(),
            process.intrinsic_table() == Seq::<NoIntrinsics>::empty(),
    {
        let process = Process {
            ip: 0,
            stack: operands_new(),
            callstack: frames_new(),
            code,
            intrinsics: &[],
            scratch: [None;SCRATCH_SLOTS],
            literals: &[],
        };
        assert(process@.scratch =~= Machine::initial().scratch);
        assert(process@.frames =~= Machine::initial().frames);
        assert(process.literal_table() =~= Seq::empty());
        process
    }
}

impl<'a, F: Intrinsic> Process<'a, F> {
    /// Both stacks are within their capacity, each return address is the
    /// place of an opcode, and every intrinsic can be invoked on every
    /// guest.
    #[verifier::type_invariant]
    spec fn well_formed(self) -> bool {
        &&& operand_items(self.stack).len() <= STACK_MAX
        &&& frame_items(self.callstack).len() <= CALL_MAX
        &&& forall|i: int|
            0 <= i < frame_items(self.callstack).len() ==> (#[trigger] frame_items(
                self.callstack,
            )[i]).ip < self.code@.len()
        &&& forall|i: int|
            0 <= i < self.intrinsics@.len() ==> (#[trigger] self.intrinsics@[i]).callable()
    }

    /// The state of the process.
    pub closed spec fn view(&self) -> Machine {
        Machine {
            ip: self.ip,
            stack: operand_items(self.stack),
            frames: frame_items(self.callstack).map_values(|frame: StackFrame| frame.ip),
            scratch: self.scratch@,
        }
    }

    /// The code table that the host lent to the process.
    pub closed spec fn code_table(&self) -> Seq<Instruction> {
        self.code@
    }

    /// The literals table that the host lent to the process.
    pub closed spec fn literal_table(&self) -> Seq<Object> {
        self.literals@
    }

    /// The intrinsics table that the host lent to the process.
    pub closed spec fn intrinsic_table(&self) -> Seq<F> {
        self.intrinsics@
    }

    /// The tables of the process, as the machine sees them.
    pub open spec fn tables(&self) -> Tables {
        Tables {
            code: self.code_table(),
            literals: self.literal_table(),
            intrinsics: self.intrinsic_table().len(),
        }
    }

    /// The process has the tables of `other`.
    pub open spec fn same_tables(&self, other: &Self) -> bool {
        &&& self.code_table() == other.code_table()
        &&& self.literal_table() == other.literal_table()
        &&& self.intrinsic_table() == other.intrinsic_table()
    }

    /// Runs the process for at most `cycle_limit` cycles, until it halts.
    ///
    /// The state in which it halts stays in the process: a process that
    /// halted with `CycleLimit` goes on from there when it is run again.
    pub fn run(&mut self, cycle_limit: u64) -> (reason: HaltReason)
        ensures
            final(self).same_tables(old(self)),
            runs_to(old(self).tables(), old(self)@, cycle_limit as nat, final(self)@, reason),
            final(self)@.valid(final(self).tables()),
            cycle_limit == 0 ==> reason == HaltReason::CycleLimit && final(self)@ == old(self)@,
    {
        let ghost t = self.tables();
        let ghost start = self@;
        let mut done: u64 = 0;
        while done < cycle_limit
            invariant
                done <= cycle_limit,
                self.same_tables(old(self)),
                t == self.tables(),
                start == old(self)@,
                done == 0 ==> self@ == start,
                forall|end: Machine, reason: HaltReason|
                    runs_to(t, self@, (cycle_limit - done) as nat, end, reason) ==> runs_to(
                        t,
                        start,
                        cycle_limit as nat,
                        end,
                        reason,
                    ),
            decreases cycle_limit - done,
        {
            let ghost before = self@;
            let ghost left = (cycle_limit - done) as nat;
            match self.__run_once() {
                Err(why) => {
                    assert(runs_to(t, before, left, self@, why));
                    proof {
                        use_type_invariant(&*self);
                    }
                    return why;
                },
                Ok(()) => {
                    proof {
                        use_type_invariant(&*self);
                    }
                    assert forall|end: Machine, reason: HaltReason|
                        runs_to(t, self@, (left - 1) as nat, end, reason) implies runs_to(
                        t,
                        start,
                        cycle_limit as nat,
                        end,
                        reason,
                    ) by {
                        assert(runs_to(t, before, left, end, reason));
                    }
                },
            }
            done += 1;
        }
        proof {
            use_type_invariant(&*self);
        }
        HaltReason::CycleLimit
    }

    /// The operand stack, the top last.
    pub fn stack(&self) -> (operands: &[Object])
        ensures
            operands@ == self@.stack,
            operands@.len() <= STACK_MAX,
            self@.valid(self.tables()),
    {
        proof {
            use_type_invariant(self);
        }
        operands_as_slice(&self.stack)
    }

    /// Pops the top of the operand stack, whatever its tag.
    fn pop(&mut self) -> (r: Result<Object, StackUnderflow>)
        ensures
            final(self).same_tables(old(self)),
            old(self)@.stack.len() == 0 ==> r.is_err() && final(self)@ == old(self)@,
            old(self)@.stack.len() > 0 ==> r.is_ok() && r->Ok_0 == old(self)@.stack.last()
                && final(self)@ == old(self)@.with_stack(old(self)@.stack.drop_last()),
    {
        proof {
            use_type_invariant(&*self);
        }
        match operands_pop(&mut self.stack) {
            None => Err(StackUnderflow {  }),
            Some(x) => Ok(x),
        }
    }

    /// Pops the top of the operand stack and projects it to `T`, for an
    /// intrinsic.
    ///
    /// Gives `None` where the stack is empty, and where the top does not
    /// project to `T`: the top has then left the stack all the same.
    pub fn pub_pop_as<T>(&mut self) -> (r: Option<T>) where T: core::convert::TryFrom<Object>
        ensures
            final(self).same_tables(old(self)),
            old(self)@.stack.len() == 0 ==> r.is_none() && final(self)@ == old(self)@,
            old(self)@.stack.len() > 0 ==> final(self)@ == old(self)@.with_stack(
                old(self)@.stack.drop_last(),
            ),
            old(self)@.stack.len() > 0 && T::obeys_try_from_spec() ==> r == match T::try_from_spec(
                old(self)@.stack.last(),
            ) {
                Ok(value) => Some(value),
                Err(_) => None,
            },
            final(self)@.valid(final(self).tables()),
    {
        proof {
            use_type_invariant(&*self);
        }
        match operands_pop(&mut self.stack) {
            None => None,
            Some(x) => {
                let x: Result<T, _> = T::try_from(x);
                match x {
                    Ok(x) => Some(x),
                    Err(_) => None,
                }
            },
        }
    }

    /// Pushes `value` on the operand stack, for an intrinsic.  Where the
    /// stack is full it stays as it is, and the result is `false`.
    pub fn pub_push(&mut self, value: Object) -> (pushed: bool)
        ensures
            final(self).same_tables(old(self)),
            pushed == (old(self)@.stack.len() < STACK_MAX),
            pushed ==> final(self)@ == old(self)@.with_stack(old(self)@.stack.push(value)),
            !pushed ==> final(self)@ == old(self)@,
            final(self)@.valid(final(self).tables()),
    {
        proof {
            use_type_invariant(&*self);
        }
        operands_push(&mut self.stack, value)
    }

    /// Pops the top of the operand stack and projects it to `T`.
    fn pop_as<T>(&mut self) -> (r: Result<T, PopFail>) where T: core::convert::TryFrom<Object>
        ensures
            final(self).same_tables(old(self)),
            final(self)@ == old(self)@.with_stack(pop_typed::<T>(old(self)@.stack).1),
            T::obeys_try_from_spec() ==> r == pop_typed::<T>(old(self)@.stack).0,
    {
        proof {
            use_type_invariant(&*self);
        }
        match operands_pop(&mut self.stack) {
            None => Err(PopFail::StackUnderflow),
            Some(x) => {
                let x: Result<T, _> = T::try_from(x);
                match x {
                    Ok(x) => Ok(x),
                    Err(_) => Err(PopFail::TypeError),
                }
            },
        }
    }

    /// Pops two operands of one type: the top comes first in the pair.
    fn pop2_as<T>(&mut self) -> (r: Result<(T, T), PopFail>) where T: core::convert::TryFrom<Object>
        requires
            T::obeys_try_from_spec(),
        ensures
            final(self).same_tables(old(self)),
            final(self)@ == old(self)@.with_stack(pop2_typed::<T>(old(self)@.stack).1),
            r == pop2_typed::<T>(old(self)@.stack).0,
    {
        let first = match self.pop_as::<T>() {
            Ok(value) => value,
            Err(fail) => {
                return Err(fail);
            },
        };
        let second = match self.pop_as::<T>() {
            Ok(value) => value,
            Err(fail) => {
                return Err(fail);
            },
        };
        Ok((first, second))
    }

    /// Pushes `value`, or gives the halt of a full operand stack.
    fn push(&mut self, value: Object) -> (r: Result<(), HaltReason>)
        ensures
            final(self).same_tables(old(self)),
            settles(old(self)@, push_effect(old(self)@.stack, value), r, final(self)@),
    {
        if self.pub_push(value) {
            Ok(())
        } else {
            Err(HaltReason::StackOverflow)
        }
    }

    /// A binary operator on unsigned operands.
    fn binary_unsigned(&mut self, op: Instruction) -> (r: Result<(), HaltReason>)
        requires
            is_binary(op),
            binary_tag(op) == Tag::Unsigned,
        ensures
            final(self).same_tables(old(self)),
            settles(old(self)@, binary_effect(op, old(self)@.stack), r, final(self)@),
    {
        let (y, x) = match self.pop2_as::<u64>() {
            Ok(pair) => pair,
            Err(fail) => {
                return Err(HaltReason::from(fail));
            },
        };
        match evaluate_unsigned(op, x, y) {
            Some(value) => self.push(value),
            None => Err(HaltReason::ArithmeticFault),
        }
    }

    /// A binary operator on signed operands.
    fn binary_signed(&mut self, op: Instruction) -> (r: Result<(), HaltReason>)
        requires
            is_binary(op),
            binary_tag(op) == Tag::Signed,
        ensures
            final(self).same_tables(old(self)),
            settles(old(self)@, binary_effect(op, old(self)@.stack), r, final(self)@),
    {
        let (y, x) = match self.pop2_as::<i64>() {
            Ok(pair) => pair,
            Err(fail) => {
                return Err(HaltReason::from(fail));
            },
        };
        match evaluate_signed(op, x, y) {
            Some(value) => self.push(value),
            None => Err(HaltReason::ArithmeticFault),
        }
    }

    /// A binary operator on truth values.
    fn binary_bool(&mut self, op: Instruction) -> (r: Result<(), HaltReason>)
        requires
            is_binary(op),
            binary_tag(op) == Tag::Bool,
        ensures
            final(self).same_tables(old(self)),
            settles(old(self)@, binary_effect(op, old(self)@.stack), r, final(self)@),
    {
        let (y, x) = match self.pop2_as::<bool>() {
            Ok(pair) => pair,
            Err(fail) => {
                return Err(HaltReason::from(fail));
            },
        };
        match evaluate_bool(op, x, y) {
            Some(value) => self.push(value),
            None => Err(HaltReason::ArithmeticFault),
        }
    }

    /// `PushSlot`: moves the top of the operand stack into scratch slot
    /// `slot`.
    fn store(&mut self, slot: usize) -> (r: Result<(), HaltReason>)
        requires
            slot < SCRATCH_SLOTS,
        ensures
            final(self).same_tables(old(self)),
            old(self)@.stack.len() == 0 ==> r == Err::<(), HaltReason>(HaltReason::StackUnderflow)
                && final(self)@ == old(self)@,
            old(self)@.stack.len() > 0 ==> r.is_ok() && final(self)@ == old(self)@.stored(
                slot as int,
            ),
    {
        let value = match self.pop() {
            Ok(value) => value,
            Err(fail) => {
                return Err(HaltReason::from(fail));
            },
        };
        proof {
            use_type_invariant(&*self);
        }
        self.scratch[slot] = Some(value);
        Ok(())
    }

    /// `PopSlot`: pushes what scratch slot `slot` holds.
    fn load(&mut self, slot: usize) -> (r: Result<(), HaltReason>)
        requires
            slot < SCRATCH_SLOTS,
        ensures
            final(self).same_tables(old(self)),
            match old(self)@.scratch[slot as int] {
                None => r == Err::<(), HaltReason>(HaltReason::EmptyScratch) && final(self)@
                    == old(self)@,
                Some(value) => settles(
                    old(self)@,
                    push_effect(old(self)@.stack, value),
                    r,
                    final(self)@,
                ),
            },
    {
        let obj = match self.scratch[slot] {
            Some(obj) => obj,
            None => {
                return Err(HaltReason::EmptyScratch);
            },
        };
        self.push(obj)
    }

    /// Moves the operand stack into a guest process that has nothing else:
    /// no code, no tables, no return address, no scratch slot.
    fn lend_stack(&mut self) -> (guest: Process<'static, NoIntrinsics>)
        ensures
            final(self).same_tables(old(self)),
            final(self)@ == old(self)@.with_stack(Seq::empty()),
            guest@ == Machine::initial().with_stack(old(self)@.stack),
            guest.code_table() == Seq::<Instruction>::empty(),
            guest.literal_table() == Seq::<Object>::empty(),
            guest.intrinsic_table() == Seq::<NoIntrinsics>::empty(),
    {
        let mut guest = Process::new(&[]);
        proof {
            use_type_invariant(&*self);
            use_type_invariant(&guest);
        }
        core::mem::swap(&mut self.stack, &mut guest.stack);
        assert(guest.code_table() =~= Seq::empty());
        guest
    }

    /// Takes the operand stack of `guest` in place of its own.
    fn take_stack(&mut self, guest: Process<'static, NoIntrinsics>)
        ensures
            final(self).same_tables(old(self)),
            final(self)@ == old(self)@.with_stack(guest@.stack),
            guest@.stack.len() <= STACK_MAX,
    {
        let mut guest = guest;
        proof {
            use_type_invariant(&*self);
            use_type_invariant(&guest);
        }
        core::mem::swap(&mut self.stack, &mut guest.stack);
    }

    /// Hands the operand stack to the intrinsic of index `index` and takes
    /// back the one that it leaves.  The intrinsic works on a guest
    /// process of its own, so nothing else of this process is within its
    /// reach, and where it runs its guest, this process does not run.
    fn invoke(&mut self, index: usize)
        requires
            index < old(self).intrinsic_table().len(),
        ensures
            final(self).same_tables(old(self)),
            final(self)@.stack.len() <= STACK_MAX,
            final(self)@ == old(self)@.with_stack(final(self)@.stack),
    {
        let mut guest = self.lend_stack();
        proof {
            use_type_invariant(&*self);
        }
        self.intrinsics[index].invoke(&mut guest);
        self.take_stack(guest);
    }

    /// `BitNot`.
    fn bit_not(&mut self) -> (r: Result<(), HaltReason>)
        ensures
            final(self).same_tables(old(self)),
            settles(old(self)@, bit_not_effect(old(self)@.stack), r, final(self)@),
    {
        let x = match self.pop_as::<u64>() {
            Ok(value) => value,
            Err(fail) => {
                return Err(HaltReason::from(fail));
            },
        };
        self.push(Object::Unsigned(!x))
    }

    /// `LogNot`.
    fn log_not(&mut self) -> (r: Result<(), HaltReason>)
        ensures
            final(self).same_tables(old(self)),
            settles(old(self)@, log_not_effect(old(self)@.stack), r, final(self)@),
    {
        let x = match self.pop_as::<bool>() {
            Ok(value) => value,
            Err(fail) => {
                return Err(HaltReason::from(fail));
            },
        };
        self.push(Object::Bool(!x))
    }

    /// `Branch`.
    fn branch(&mut self) -> (r: Result<(), HaltReason>)
        ensures
            final(self).same_tables(old(self)),
            follows(old(self)@.branch(), r, final(self)@),
    {
        let x = match self.pop_as::<u64>() {
            Ok(value) => value,
            Err(fail) => {
                return Err(HaltReason::from(fail));
            },
        };
        proof {
            use_type_invariant(&*self);
        }
        self.ip = target(x);
        Ok(())
    }

    /// `BranchTrue`.
    fn branch_true(&mut self) -> (r: Result<(), HaltReason>)
        requires
            old(self)@.ip < old(self).tables().code.len() <= usize::MAX,
        ensures
            final(self).same_tables(old(self)),
            follows(old(self)@.branch_true(), r, final(self)@),
    {
        let x = match self.pop_as::<u64>() {
            Ok(value) => value,
            Err(fail) => {
                return Err(HaltReason::from(fail));
            },
        };
        let y = match self.pop_as::<bool>() {
            Ok(value) => value,
            Err(fail) => {
                return Err(HaltReason::from(fail));
            },
        };
        proof {
            use_type_invariant(&*self);
        }
        if y {
            self.ip = target(x);
        } else {
            self.ip += 1;
        }
        Ok(())
    }

    /// `Call`.
    fn call(&mut self) -> (r: Result<(), HaltReason>)
        requires
            old(self)@.ip < old(self).tables().code.len(),
        ensures
            final(self).same_tables(old(self)),
            follows(old(self)@.call(), r, final(self)@),
    {
        proof {
            use_type_invariant(&*self);
        }
        let sf = StackFrame { ip: self.ip };
        if !frames_push(&mut self.callstack, sf) {
            return Err(HaltReason::StackOverflow);
        }
        assert(self@.frames =~= old(self)@.frames.push(old(self)@.ip));
        let x = match self.pop_as::<u64>() {
            Ok(value) => value,
            Err(fail) => {
                return Err(HaltReason::from(fail));
            },
        };
        proof {
            use_type_invariant(&*self);
        }
        self.ip = target(x);
        Ok(())
    }

    /// `Ret`.
    fn ret(&mut self) -> (r: Result<(), HaltReason>)
        requires
            old(self).tables().code.len() <= usize::MAX,
        ensures
            final(self).same_tables(old(self)),
            follows(old(self)@.ret(), r, final(self)@),
    {
        proof {
            use_type_invariant(&*self);
        }
        let ghost frames = frame_items(self.callstack);
        let stack_frame = match frames_pop(&mut self.callstack) {
            Some(sf) => sf,
            None => {
                return Err(HaltReason::StackUnderflow);
            },
        };
        proof {
            use_type_invariant(&*self);
            assert(stack_frame == frames[frames.len() - 1]);
            assert(self@.frames =~= old(self)@.frames.drop_last());
        }
        self.ip = stack_frame.ip + 1;
        Ok(())
    }

    /// `Intrinsic`.
    fn intrinsic(&mut self) -> (r: Result<(), HaltReason>)
        requires
            old(self)@.ip < old(self).tables().code.len() <= usize::MAX,
        ensures
            final(self).same_tables(old(self)),
            follows(old(self)@.intrinsic(old(self).tables().intrinsics), r, final(self)@),
    {
        let idx = match self.pop_as::<u64>() {
            Ok(value) => value,
            Err(fail) => {
                return Err(HaltReason::from(fail));
            },
        };
        if idx >= self.intrinsics.len() as u64 {
            return Err(HaltReason::InvalidIntrinsic);
        }
        self.invoke(idx as usize);
        proof {
            use_type_invariant(&*self);
        }
        self.ip += 1;
        Ok(())
    }

    /// One cycle.  Where the result is `Ok`, the process is ready for its
    /// next cycle.
    fn __run_once(&mut self) -> (r: Result<(), HaltReason>)
        ensures
            final(self).same_tables(old(self)),
            follows(step(old(self).tables(), old(self)@), r, final(self)@),
    {
        if self.ip >= self.code.len() {
            return Err(HaltReason::OutOfBounds);
        }
        let instruction = self.code[self.ip];
        match instruction {
            Instruction::LiteralUnsigned(x) => {
                self.push(Object::Unsigned(x as u64))?;
            },
            Instruction::LiteralSigned(x) => {
                self.push(Object::Signed(x as i64))?;
            },
            Instruction::LiteralBool(x) => {
                self.push(Object::Bool(x))?;
            },
            Instruction::LiteralIndexed(x) => {
                if x as usize >= self.literals.len() {
                    return Err(HaltReason::InvalidLiteral);
                }
                let literal = self.literals[x as usize];
                self.push(literal)?;
            },
            Instruction::AddUnsigned
            | Instruction::SubtractUnsigned
            | Instruction::MultiplyUnsigned
            | Instruction::DivideUnsigned
            | Instruction::ModulusUnsigned
            | Instruction::BitAnd
            | Instruction::BitOr
            | Instruction::BitXor
            | Instruction::BitLShift
            | Instruction::BitRShift
            | Instruction::BitLRot
            | Instruction::BitRRot
            | Instruction::EqUnsigned
            | Instruction::NeqUnsigned
            | Instruction::GtUnsigned
            | Instruction::LtUnsigned
            | Instruction::GtEqUnsigned
            | Instruction::LtEqUnsigned => {
                self.binary_unsigned(instruction)?;
            },
            Instruction::AddSigned
            | Instruction::SubtractSigned
            | Instruction::MultiplySigned
            | Instruction::DivideSigned
            | Instruction::ModulusSigned
            | Instruction::EqSigned
            | Instruction::NeqSigned
            | Instruction::GtSigned
            | Instruction::LtSigned
            | Instruction::GtEqSigned
            | Instruction::LtEqSigned => {
                self.binary_signed(instruction)?;
            },
            Instruction::LogAnd | Instruction::LogOr | Instruction::LogXor => {
                self.binary_bool(instruction)?;
            },
            Instruction::BitNot => {
                self.bit_not()?;
            },
            Instruction::LogNot => {
                self.log_not()?;
            },
            Instruction::Branch => {
                return self.branch();
            },
            Instruction::BranchTrue => {
                return self.branch_true();
            },
            Instruction::Call => {
                return self.call();
            },
            Instruction::Ret => {
                return self.ret();
            },
            Instruction::PushSlot1 => {
                self.store(0)?;
            },
            Instruction::PushSlot2 => {
                self.store(1)?;
            },
            Instruction::PushSlot3 => {
                self.store(2)?;
            },
            Instruction::PushSlot4 => {
                self.store(3)?;
            },
            Instruction::PopSlot1 => {
                self.load(0)?;
            },
            Instruction::PopSlot2 => {
                self.load(1)?;
            },
            Instruction::PopSlot3 => {
                self.load(2)?;
            },
            Instruction::PopSlot4 => {
                self.load(3)?;
            },
            Instruction::Intrinsic => {
                return self.intrinsic();
            },
        }
        proof {
            use_type_invariant(&*self);
        }
        self.ip += 1;
        Ok(())
    }
}

} // verus!
