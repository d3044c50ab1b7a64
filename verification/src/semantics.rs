//! The meaning of the instructions, as functions on a model of the machine.
//!
//! Executing an instruction either fails, and then changes nothing, or gives
//! the next state of the machine together with what is asked of the host.

use vstd::prelude::*;
use vstd::arithmetic::div_mod::{lemma_mod_bound, lemma_mod_decreases};
use crate::data_types::{DataType, Value};
use crate::flow_structure::{
    ActionView,
    ExecError,
    FloatBits,
    FloatOp,
    FloatRequest,
    Instr,
    OpCode,
};
use crate::registers::Register;

verus! {

/// The model of the machine: the register file, the zero flag and the
/// program counter.
pub struct Machine {
    pub regs: Seq<Value>,
    pub zf: bool,
    pub pc: int,
}

/// The outcome of executing an instruction.
pub type Outcome = Result<(Machine, ActionView), ExecError>;

impl Machine {
    /// Whether the register file has its eight slots.
    pub open spec fn wf(self) -> bool {
        self.regs.len() == 8
    }

    /// The machine with `value` stored in the slot of `reg`.
    pub open spec fn store(self, reg: Register, value: Value) -> Machine {
        Machine { regs: self.regs.update(reg.ordinal(), value), ..self }
    }

    /// The machine with the zero flag set to `zf`.
    pub open spec fn flag(self, zf: bool) -> Machine {
        Machine { zf, ..self }
    }

    /// The machine with the program counter set to `pc`.
    pub open spec fn at(self, pc: int) -> Machine {
        Machine { pc, ..self }
    }
}

/// Whether an operand can be read: it does not name `NIL`.
pub open spec fn readable(operand: Value) -> bool {
    operand != Value::Register(Register::NIL)
}

/// The value that an operand stands for: the content of the slot for a
/// register, the operand itself otherwise.
pub open spec fn effective(m: Machine, operand: Value) -> Value {
    match operand {
        Value::Register(reg) => m.regs[reg.ordinal()],
        _ => operand,
    }
}

/// The register that an operand names, `NIL` if it names none.
pub open spec fn register_of(operand: Value) -> Register {
    match operand {
        Value::Register(reg) => reg,
        _ => Register::NIL,
    }
}

/// The bit pattern of a floating-point value.
pub open spec fn bits_of(value: Value) -> FloatBits {
    match value {
        Value::Double(bits) => FloatBits::Double(bits),
        Value::Float(bits) => FloatBits::Single(bits),
        _ => FloatBits::Single(0),
    }
}

/// The sum of two values of one kind: wrapping addition for the integers,
/// addition of the code points modulo 256 for characters. For texts and
/// register names it is the left value.
pub open spec fn sum(a: Value, b: Value) -> Value {
    match (a, b) {
        (Value::Uint32(x), Value::Uint32(y)) => Value::Uint32(x.wrapping_add(y)),
        (Value::Uint64(x), Value::Uint64(y)) => Value::Uint64(x.wrapping_add(y)),
        (Value::Int32(x), Value::Int32(y)) => Value::Int32(x.wrapping_add(y)),
        (Value::Int64(x), Value::Int64(y)) => Value::Int64(x.wrapping_add(y)),
        (Value::Char(x), Value::Char(y)) => Value::Char(((x as int + y as int) % 256) as char),
        _ => a,
    }
}

/// The integer that a value of an integer kind carries.
pub open spec fn number_of(value: Value) -> Option<int> {
    match value {
        Value::Uint32(x) => Some(x as int),
        Value::Uint64(x) => Some(x as int),
        Value::Int32(x) => Some(x as int),
        Value::Int64(x) => Some(x as int),
        _ => None,
    }
}

/// The value of the given integer kind that carries `n`.
pub open spec fn with_number(tag: DataType, n: int) -> Value {
    match tag {
        DataType::Uint32 => Value::Uint32(n as u32),
        DataType::Uint64 => Value::Uint64(n as u64),
        DataType::Int32 => Value::Int32(n as i32),
        _ => Value::Int64(n as i64),
    }
}

/// The remainder of the division that truncates towards zero: it has the
/// sign of the dividend and is smaller in magnitude than the divisor.
pub open spec fn truncated_rem(x: int, y: int) -> int {
    let d = if y < 0 {
        -y
    } else {
        y
    };
    if x < 0 {
        -((-x) % d)
    } else {
        x % d
    }
}

/// The truncated remainder lies between zero and the dividend, and it is
/// smaller in magnitude than the divisor.
pub proof fn lemma_truncated_rem_bounds(x: int, y: int)
    requires
        y != 0,
    ensures
        x >= 0 ==> 0 <= truncated_rem(x, y) <= x,
        x <= 0 ==> x <= truncated_rem(x, y) <= 0,
        y > 0 ==> -y < truncated_rem(x, y) < y,
        y < 0 ==> y < truncated_rem(x, y) < -y,
{
    let d = if y < 0 {
        -y
    } else {
        y
    };
    let n = if x < 0 {
        -x
    } else {
        x
    };
    lemma_mod_bound(n, d);
    lemma_mod_decreases(n as nat, d as nat);
}

/// `MOV dst, src`: the destination register takes the kind and the content
/// of the source.
pub open spec fn mov_step(m: Machine, dst: Value, src: Value) -> Outcome {
    if !(dst is Register) {
        Err(ExecError::Destination)
    } else if !readable(dst) || !readable(src) {
        Err(ExecError::NoSuchRegister)
    } else {
        Ok((m.store(register_of(dst), effective(m, src)), ActionView::Continue))
    }
}

/// `ADD dst, src`: the destination register takes the sum of its content and
/// the source. Sums of floats are left to the host.
pub open spec fn add_step(m: Machine, dst: Value, src: Value) -> Outcome {
    let a = effective(m, dst);
    let b = effective(m, src);
    if !(dst is Register) {
        Err(ExecError::Destination)
    } else if !readable(dst) || !readable(src) {
        Err(ExecError::NoSuchRegister)
    } else if a.tag() != b.tag() {
        Err(ExecError::TagMismatch)
    } else if a.is_float() {
        Ok(
            (
                m,
                ActionView::Float(
                    FloatRequest {
                        op: FloatOp::Add,
                        left: bits_of(a),
                        right: bits_of(b),
                        target: register_of(dst),
                    },
                ),
            ),
        )
    } else {
        Ok((m.store(register_of(dst), sum(a, b)), ActionView::Continue))
    }
}

/// `MOD left, right`: the remainder of the left operand divided by the right
/// one decides the zero flag and, where the left operand is a register, is
/// stored there. At least one operand has to be a register. Remainders of
/// floats are left to the host.
pub open spec fn rem_step(m: Machine, left: Value, right: Value) -> Outcome {
    let a = effective(m, left);
    let b = effective(m, right);
    if !readable(left) || !readable(right) {
        Err(ExecError::NoSuchRegister)
    } else if !(left is Register) && !(right is Register) {
        Err(ExecError::Destination)
    } else if a.tag() != b.tag() {
        Err(ExecError::TagMismatch)
    } else if a.is_float() {
        Ok(
            (
                m,
                ActionView::Float(
                    FloatRequest {
                        op: FloatOp::Rem,
                        left: bits_of(a),
                        right: bits_of(b),
                        target: register_of(left),
                    },
                ),
            ),
        )
    } else if number_of(a).is_none() {
        Err(ExecError::NotNumeric)
    } else if number_of(b) == Some(0int) {
        Err(ExecError::DivisionByZero)
    } else {
        let r = truncated_rem(number_of(a).unwrap(), number_of(b).unwrap());
        let stored = if left is Register {
            m.store(register_of(left), with_number(a.tag(), r))
        } else {
            m
        };
        Ok((stored.flag(r == 0), ActionView::Continue))
    }
}

/// `CMP left, right`: the zero flag tells whether the two operands are
/// equal. Register names are never equal.
pub open spec fn compare_step(m: Machine, left: Value, right: Value) -> Outcome {
    let a = effective(m, left);
    let b = effective(m, right);
    if !readable(left) || !readable(right) {
        Err(ExecError::NoSuchRegister)
    } else if a.tag() != b.tag() {
        Err(ExecError::TagMismatch)
    } else {
        Ok((m.flag(!(a is Register) && a.same(b)), ActionView::Continue))
    }
}

/// A jump to `addr`, taken or not. The operand has to stand for a 64-bit
/// signed integer either way. A jump that is taken leaves the program
/// counter one before its target, where the step that follows every
/// instruction finds it.
pub open spec fn jump_step(m: Machine, addr: Value, taken: bool) -> Outcome {
    if !readable(addr) {
        Err(ExecError::NoSuchRegister)
    } else {
        match effective(m, addr) {
            Value::Int64(target) => {
                if !taken {
                    Ok((m, ActionView::Continue))
                } else if target == i64::MIN {
                    Err(ExecError::Address)
                } else {
                    Ok((m.at(target - 1), ActionView::Continue))
                }
            },
            _ => Err(ExecError::Address),
        }
    }
}

/// `PNL operand`: the host is asked to print what the operand stands for.
pub open spec fn print_step(m: Machine, operand: Value) -> Outcome {
    let a = effective(m, operand);
    if !readable(operand) {
        Err(ExecError::NoSuchRegister)
    } else if a.is_float() {
        Ok((m, ActionView::PrintFloat(bits_of(a))))
    } else {
        Ok((m, ActionView::Print(a.text().unwrap())))
    }
}

/// The outcome of executing one instruction.
pub open spec fn execute(m: Machine, instr: Instr) -> Outcome {
    if !instr.op.is_implemented() {
        Err(ExecError::Unimplemented)
    } else if instr.args.len() != instr.op.arity() {
        Err(ExecError::OperandCount)
    } else {
        match instr.op {
            OpCode::MOV => mov_step(m, instr.args[0], instr.args[1]),
            OpCode::ADD => add_step(m, instr.args[0], instr.args[1]),
            OpCode::MOD => rem_step(m, instr.args[0], instr.args[1]),
            OpCode::CMP => compare_step(m, instr.args[0], instr.args[1]),
            OpCode::JMP => jump_step(m, instr.args[0], true),
            OpCode::JE => jump_step(m, instr.args[0], m.zf),
            OpCode::JNE => jump_step(m, instr.args[0], !m.zf),
            _ => print_step(m, instr.args[0]),
        }
    }
}

/// The machine after the host has carried out a floating-point operation:
/// the result is stored in the target, unless that is `NIL`, and a remainder
/// decides the zero flag.
pub open spec fn complete(m: Machine, request: FloatRequest, result: FloatBits) -> Machine {
    let stored = if request.target == Register::NIL {
        m
    } else {
        m.store(request.target, result.value())
    };
    if request.op == FloatOp::Rem {
        stored.flag(result.is_zero())
    } else {
        stored
    }
}

/// Whether the program has run to its end: the program counter points at no
/// instruction.
pub open spec fn halted(m: Machine, flow: Seq<Instr>) -> bool {
    !(0 <= m.pc < flow.len())
}

/// Whether the program counter may stand at `pc`: at an instruction or at
/// the end of the program, and within the 64-bit signed integers.
pub open spec fn in_program(pc: int, flow: Seq<Instr>) -> bool {
    0 <= pc <= flow.len() && pc <= i64::MAX
}

/// One step of the machine: the instruction under the program counter is
/// executed and the program counter moves on by one. A jump may lead to any
/// instruction or to the end of the program, nowhere else; and no
/// instruction is executed from which the program counter could not move on.
pub open spec fn step(m: Machine, flow: Seq<Instr>) -> Outcome {
    if !in_program(m.pc + 1, flow) {
        Err(ExecError::JumpOutOfRange)
    } else {
        match execute(m, flow[m.pc]) {
            Err(e) => Err(e),
            Ok((next, action)) => {
                if in_program(next.pc + 1, flow) {
                    Ok((next.at(next.pc + 1), action))
                } else {
                    Err(ExecError::JumpOutOfRange)
                }
            },
        }
    }
}

/// How a run of the machine comes to rest.
pub enum Rest {
    /// The program has run to its end.
    Halted,
    /// The allowance of steps is used up.
    Exhausted,
    /// The host is asked to act.
    Host(ActionView),
    /// An instruction was refused.
    Fault(ExecError),
}

/// A run of at most `fuel` steps: the machine steps until the program ends,
/// an instruction asks something of the host or is refused, or the allowance
/// is used up. A refused instruction leaves the machine as it was before it.
pub open spec fn run(m: Machine, flow: Seq<Instr>, fuel: nat) -> (Machine, Rest)
    decreases fuel,
{
    if halted(m, flow) {
        (m, Rest::Halted)
    } else if fuel == 0 {
        (m, Rest::Exhausted)
    } else {
        match step(m, flow) {
            Err(e) => (m, Rest::Fault(e)),
            Ok((next, ActionView::Continue)) => run(next, flow, (fuel - 1) as nat),
            Ok((next, action)) => (next, Rest::Host(action)),
        }
    }
}

/// Executing an instruction leaves the register file with its eight slots.
pub proof fn lemma_execute_keeps_registers(m: Machine, instr: Instr)
    requires
        m.wf(),
    ensures
        execute(m, instr) matches Ok((next, _)) ==> next.wf(),
{
}

/// Taking the result of a floating-point operation leaves the register file
/// with its eight slots and the program counter where it is.
pub proof fn lemma_complete_keeps_shape(m: Machine, request: FloatRequest, result: FloatBits)
    requires
        m.wf(),
    ensures
        complete(m, request, result).wf(),
        complete(m, request, result).pc == m.pc,
{
}

/// A run leaves the program counter at an instruction or at the end of the
/// program, and the register file with its eight slots. A program that has
/// run to its end has its program counter at the end. A run that rests for
/// the host asks something of it.
pub proof fn lemma_run_keeps_shape(m: Machine, flow: Seq<Instr>, fuel: nat)
    requires
        m.wf(),
        in_program(m.pc, flow),
    ensures
        run(m, flow, fuel).0.wf(),
        in_program(run(m, flow, fuel).0.pc, flow),
        run(m, flow, fuel).1 is Halted ==> run(m, flow, fuel).0.pc == flow.len(),
        run(m, flow, fuel).1 != Rest::Host(ActionView::Continue),
    decreases fuel,
{
    if !halted(m, flow) && fuel > 0 {
        lemma_execute_keeps_registers(m, flow[m.pc]);
        match step(m, flow) {
            Ok((next, ActionView::Continue)) => {
                lemma_run_keeps_shape(next, flow, (fuel - 1) as nat);
            },
            _ => {},
        }
    }
}

/// A run whose allowance is used up can be taken up again: the two runs
/// together are the run with the two allowances together.
pub proof fn lemma_run_resumes(m: Machine, flow: Seq<Instr>, first: nat, second: nat)
    requires
        run(m, flow, first).1 is Exhausted,
    ensures
        run(m, flow, first + second) == run(run(m, flow, first).0, flow, second),
    decreases first,
{
    if first > 0 {
        match step(m, flow) {
            Ok((next, ActionView::Continue)) => {
                lemma_run_resumes(next, flow, (first - 1) as nat, second);
                assert(first + second - 1 == (first - 1) as nat + second);
            },
            _ => {},
        }
    }
}

/// After a comparison of two operands of one kind, the zero flag is set
/// exactly when the two are equal, register names excepted, which never
/// compare equal.
pub proof fn lemma_compare_sets_zero_flag(m: Machine, left: Value, right: Value)
    requires
        readable(left),
        readable(right),
        effective(m, left).tag() == effective(m, right).tag(),
        !(effective(m, left) is Register),
    ensures
        compare_step(m, left, right) matches Ok((next, _)) && (next.zf <==> effective(
            m,
            left,
        ).same(effective(m, right))),
{
}

/// A jump that is taken to a target within the program, or to its end, makes
/// the instruction at the target the next to be executed: after the step the
/// program counter is the target itself, and nothing else has changed.
pub proof fn lemma_taken_jump_lands_on_target(m: Machine, flow: Seq<Instr>, target: i64)
    requires
        !halted(m, flow),
        flow[m.pc].args.len() == 1,
        readable(flow[m.pc].args[0]),
        effective(m, flow[m.pc].args[0]) == Value::Int64(target),
        flow[m.pc].op == OpCode::JMP || (flow[m.pc].op == OpCode::JE && m.zf) || (flow[m.pc].op
            == OpCode::JNE && !m.zf),
        0 <= target <= flow.len(),
        m.pc < i64::MAX,
    ensures
        step(m, flow) == Ok::<(Machine, ActionView), ExecError>((m.at(target as int), ActionView::Continue)),
{
}

/// A jump that is not taken moves on to the instruction behind it.
pub proof fn lemma_untaken_jump_falls_through(m: Machine, flow: Seq<Instr>, target: i64)
    requires
        !halted(m, flow),
        flow[m.pc].args.len() == 1,
        readable(flow[m.pc].args[0]),
        effective(m, flow[m.pc].args[0]) == Value::Int64(target),
        (flow[m.pc].op == OpCode::JE && !m.zf) || (flow[m.pc].op == OpCode::JNE && m.zf),
        m.pc < i64::MAX,
    ensures
        step(m, flow) == Ok::<(Machine, ActionView), ExecError>((m.at(m.pc + 1), ActionView::Continue)),
{
}

/// Adding an immediate value to a register gives what adding a second
/// register gives into which the value was moved first.
pub proof fn lemma_add_immediate_or_register(
    m: Machine,
    dst: Register,
    other: Register,
    value: Value,
)
    requires
        m.wf(),
        dst != Register::NIL,
        other != Register::NIL,
        dst != other,
        !(value is Register),
    ensures
        ({
            let direct = add_step(m, Value::Register(dst), value);
            let moved = mov_step(m, Value::Register(other), value)->Ok_0.0;
            let indirect = add_step(moved, Value::Register(dst), Value::Register(other));
            match (direct, indirect) {
                (Ok((a, x)), Ok((b, y))) => a.regs[dst.ordinal()] == b.regs[dst.ordinal()] && x
                    == y,
                (Err(e), Err(f)) => e == f,
                _ => false,
            }
        }),
{
}

} // verus!
