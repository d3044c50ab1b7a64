//! The machine: eight registers, the zero flag and the program counter.

use vstd::prelude::*;
use crate::data_types::{AnyData, DataType, GeneralData, Value};
use crate::flow_structure::{
    fulfils,
    values_of,
    Action,
    ExecError,
    FloatBits,
    FloatOp,
    FloatRequest,
    FlowStructure,
    IstrTraits,
    OpCode,
};
use crate::registers::Register;
use crate::semantics;
use crate::semantics::Machine;

verus! {

/// The condition flags.
struct Flags {
    /// The zero flag.
    pub zf: bool,
}

/// The state of the machine.
pub struct EnvVars {
    flags: Flags,
    registers: [GeneralData; 8],
    /// The index of the instruction to execute next.
    pub pc: i64,
}

impl View for EnvVars {
    type V = Machine;

    closed spec fn view(&self) -> Machine {
        Machine { regs: values_of(self.registers@), zf: self.flags.zf, pc: self.pc as int }
    }
}

impl EnvVars {
    /// A machine at the start of a program: every register holds the 32-bit
    /// signed zero, the zero flag is down and the program counter is zero.
    pub fn init() -> (r: EnvVars)
        ensures
            r@.regs == Seq::new(8, |i: int| Value::Int32(0)),
            !r@.zf,
            r@.pc == 0,
    {
        let r = EnvVars {
            flags: Flags { zf: false },
            registers: [
                Self::zero(),
                Self::zero(),
                Self::zero(),
                Self::zero(),
                Self::zero(),
                Self::zero(),
                Self::zero(),
                Self::zero(),
            ],
            pc: 0,
        };
        assert(r@.regs =~= Seq::new(8, |i: int| Value::Int32(0)));
        r
    }

    /// The content of a register at the start.
    fn zero() -> (r: GeneralData)
        ensures
            r@ == Value::Int32(0),
    {
        GeneralData { t: DataType::Int32, d: AnyData::from(0i32) }
    }

    /// The register file of a machine always has its eight slots.
    pub proof fn lemma_well_formed(&self)
        ensures
            self@.wf(),
    {
    }

    /// The program counter, that is the field `pc`.
    pub fn program_counter(&self) -> (r: i64)
        ensures
            r == self@.pc,
    {
        self.pc
    }

    /// Whether the zero flag is up.
    pub fn zf(&self) -> (r: bool)
        ensures
            r == self@.zf,
    {
        self.flags.zf
    }

    /// The content of a register; `None` for `NIL`, which has no slot.
    pub fn register(&self, reg: Register) -> (r: Option<&GeneralData>)
        ensures
            r.is_some() == (reg != Register::NIL),
            r matches Some(g) ==> g@ == self@.regs[reg.ordinal()],
    {
        let i: usize = reg.index();
        if i < 8 {
            Some(&self.registers[i])
        } else {
            None
        }
    }

    /// Sets the program counter, that is the field `pc`.
    pub fn set_program_counter(&mut self, pc: i64)
        ensures
            final(self)@ == old(self)@.at(pc as int),
    {
        self.pc = pc;
    }

    /// Reads an operand: the content of the slot for a register, the operand
    /// itself otherwise.
    fn operand<'a>(&'a self, operand: &'a GeneralData) -> (r: Result<&'a GeneralData, ExecError>)
        ensures
            r.is_ok() == semantics::readable(operand@),
            r matches Ok(g) ==> g@ == semantics::effective(self@, operand@),
            r matches Err(e) ==> e == ExecError::NoSuchRegister,
    {
        if operand.t == DataType::Register {
            let i: usize = operand.d.register.index();
            if i < 8 {
                Ok(&self.registers[i])
            } else {
                Err(ExecError::NoSuchRegister)
            }
        } else {
            Ok(operand)
        }
    }

    /// Stores a value in the slot of a register.
    fn store(&mut self, reg: Register, value: GeneralData)
        requires
            reg != Register::NIL,
        ensures
            final(self)@ == old(self)@.store(reg, value@),
    {
        let i: usize = reg.index();
        self.registers[i] = value;
        assert(self@.regs =~= old(self)@.regs.update(reg.ordinal(), value@));
    }

    /// Sets the zero flag.
    fn raise(&mut self, zf: bool)
        ensures
            final(self)@ == old(self)@.flag(zf),
    {
        self.flags.zf = zf;
    }

    /// The value of the given kind with `bits` in the slot of that kind.
    fn float_value(bits: FloatBits) -> (r: GeneralData)
        ensures
            r@ == bits.value(),
    {
        match bits {
            FloatBits::Single(b) => GeneralData {
                t: DataType::Float,
                d: AnyData::from_float_bits(b),
            },
            FloatBits::Double(b) => GeneralData {
                t: DataType::Double,
                d: AnyData::from_double_bits(b),
            },
        }
    }

    /// The bit pattern of a floating-point value.
    fn float_bits(value: &GeneralData) -> (r: FloatBits)
        requires
            value@.is_float(),
        ensures
            r == semantics::bits_of(value@),
    {
        if value.t == DataType::Double {
            FloatBits::Double(value.d.double)
        } else {
            FloatBits::Single(value.d.float)
        }
    }

    /// The register that an operand names, `NIL` if it names none.
    fn named(operand: &GeneralData) -> (r: Register)
        ensures
            r == semantics::register_of(operand@),
    {
        if operand.t == DataType::Register {
            operand.d.register
        } else {
            Register::NIL
        }
    }

    /// A jump to `address`, taken or not.
    fn jump(&mut self, address: &GeneralData, taken: bool) -> (r: Result<Action, ExecError>)
        ensures
            fulfils(old(self)@, final(self)@, r, semantics::jump_step(old(self)@, address@, taken)),
    {
        let target: i64 = match self.operand(address) {
            Ok(g) => {
                if g.t != DataType::Int64 {
                    return Err(ExecError::Address);
                }
                g.d.int64
            },
            Err(e) => {
                return Err(e);
            },
        };
        if !taken {
            return Ok(Action::Continue);
        }
        if target == i64::MIN {
            return Err(ExecError::Address);
        }
        self.pc = target - 1;
        Ok(Action::Continue)
    }

    /// Takes the result of a floating-point operation that the machine had
    /// asked for: it is stored in the target of the request, unless that is
    /// `NIL`, and the result of a remainder decides the zero flag.
    pub fn complete_float(&mut self, request: &FloatRequest, result: FloatBits)
        ensures
            final(self)@ == semantics::complete(old(self)@, *request, result),
    {
        if request.target != Register::NIL {
            self.store(request.target, Self::float_value(result));
        }
        match request.op {
            FloatOp::Rem => {
                let zero: bool = match result {
                    FloatBits::Single(b) => (b & 0x7fff_ffff) == 0,
                    FloatBits::Double(b) => (b & 0x7fff_ffff_ffff_ffff) == 0,
                };
                self.raise(zero);
            },
            FloatOp::Add => {},
        }
    }

    /// Executes one instruction. The program counter is left where the
    /// instruction puts it: untouched, or one before the target of a jump
    /// that is taken.
    pub fn execute_istr(&mut self, istr: &FlowStructure) -> (r: Result<Action, ExecError>)
        ensures
            fulfils(old(self)@, final(self)@, r, semantics::execute(old(self)@, istr@)),
    {
        let n: usize = istr.arguments.len();
        assert(istr@.args.len() == n);
        assert(forall|i: int| 0 <= i < n ==> istr@.args[i] == #[trigger] istr.arguments@[i]@);
        match istr.op_code {
            OpCode::MOV => {
                if n != 2 {
                    return Err(ExecError::OperandCount);
                }
                self.mov(&istr.arguments[0], &istr.arguments[1])
            },
            OpCode::ADD => {
                if n != 2 {
                    return Err(ExecError::OperandCount);
                }
                self.add(&istr.arguments[0], &istr.arguments[1])
            },
            OpCode::MOD => {
                if n != 2 {
                    return Err(ExecError::OperandCount);
                }
                self.modu(&istr.arguments[0], &istr.arguments[1])
            },
            OpCode::CMP => {
                if n != 2 {
                    return Err(ExecError::OperandCount);
                }
                self.cmp(&istr.arguments[0], &istr.arguments[1])
            },
            OpCode::JNE => {
                if n != 1 {
                    return Err(ExecError::OperandCount);
                }
                self.jne(&istr.arguments[0])
            },
            OpCode::JMP => {
                if n != 1 {
                    return Err(ExecError::OperandCount);
                }
                self.jmp(&istr.arguments[0])
            },
            OpCode::JE => {
                if n != 1 {
                    return Err(ExecError::OperandCount);
                }
                self.je(&istr.arguments[0])
            },
            OpCode::PNL => {
                if n != 1 {
                    return Err(ExecError::OperandCount);
                }
                self.pnl(&istr.arguments[0])
            },
            _ => Err(ExecError::Unimplemented),
        }
    }
}

impl IstrTraits for EnvVars {
    open spec fn machine(&self) -> Machine {
        self@
    }

    fn mov(&mut self, register: &GeneralData, any: &GeneralData) -> (r: Result<Action, ExecError>) {
        if register.t != DataType::Register {
            return Err(ExecError::Destination);
        }
        let dst: Register = register.d.register;
        if dst == Register::NIL {
            return Err(ExecError::NoSuchRegister);
        }
        let value: GeneralData = match self.operand(any) {
            Ok(g) => g.clone(),
            Err(e) => {
                return Err(e);
            },
        };
        self.store(dst, value);
        Ok(Action::Continue)
    }

    fn pop(&mut self, register: &GeneralData) -> (r: Result<Action, ExecError>) {
        Err(ExecError::Unimplemented)
    }

    fn push(&mut self, any: GeneralData) -> (r: Result<Action, ExecError>) {
        Err(ExecError::Unimplemented)
    }

    fn add(&mut self, left: &GeneralData, right: &GeneralData) -> (r: Result<Action, ExecError>) {
        if left.t != DataType::Register {
            return Err(ExecError::Destination);
        }
        let dst: Register = left.d.register;
        if dst == Register::NIL {
            return Err(ExecError::NoSuchRegister);
        }
        let b: &GeneralData = match self.operand(right) {
            Ok(g) => g,
            Err(e) => {
                return Err(e);
            },
        };
        let a: &GeneralData = &self.registers[dst.index()];
        if a.t != b.t {
            return Err(ExecError::TagMismatch);
        }
        let mut total: GeneralData = a.clone();
        match a.t {
            DataType::Uint32 => {
                total.d.uint32 = a.d.uint32.wrapping_add(b.d.uint32);
            },
            DataType::Uint64 => {
                total.d.uint64 = a.d.uint64.wrapping_add(b.d.uint64);
            },
            DataType::Int32 => {
                total.d.int32 = a.d.int32.wrapping_add(b.d.int32);
            },
            DataType::Int64 => {
                total.d.int64 = a.d.int64.wrapping_add(b.d.int64);
            },
            DataType::Char => {
                let low: u32 = (a.d.char as u32 % 256 + b.d.char as u32 % 256) % 256;
                assert(low == (a.d.char as int + b.d.char as int) % 256);
                total.d.char = (low as u8) as char;
            },
            DataType::Float | DataType::Double => {
                return Ok(
                    Action::Float(
                        FloatRequest {
                            op: FloatOp::Add,
                            left: Self::float_bits(a),
                            right: Self::float_bits(b),
                            target: dst,
                        },
                    ),
                );
            },
            DataType::String | DataType::Register => {},
        }
        self.store(dst, total);
        Ok(Action::Continue)
    }

    fn sub(&mut self, left: &GeneralData, right: &GeneralData) -> (r: Result<Action, ExecError>) {
        Err(ExecError::Unimplemented)
    }

    fn mul(&mut self, left: &GeneralData, right: &GeneralData) -> (r: Result<Action, ExecError>) {
        Err(ExecError::Unimplemented)
    }

    fn div(&mut self, left: &GeneralData, right: &GeneralData) -> (r: Result<Action, ExecError>) {
        Err(ExecError::Unimplemented)
    }

    fn modu(&mut self, left: &GeneralData, right: &GeneralData) -> (r: Result<Action, ExecError>) {
        let a: &GeneralData = match self.operand(left) {
            Ok(g) => g,
            Err(e) => {
                return Err(e);
            },
        };
        let b: &GeneralData = match self.operand(right) {
            Ok(g) => g,
            Err(e) => {
                return Err(e);
            },
        };
        if left.t != DataType::Register && right.t != DataType::Register {
            return Err(ExecError::Destination);
        }
        if a.t != b.t {
            return Err(ExecError::TagMismatch);
        }
        let target: Register = Self::named(left);
        let mut rest: GeneralData = a.clone();
        let zero: bool;
        match a.t {
            DataType::Float | DataType::Double => {
                return Ok(
                    Action::Float(
                        FloatRequest {
                            op: FloatOp::Rem,
                            left: Self::float_bits(a),
                            right: Self::float_bits(b),
                            target,
                        },
                    ),
                );
            },
            DataType::Uint32 => {
                if b.d.uint32 == 0 {
                    return Err(ExecError::DivisionByZero);
                }
                let res: u32 = a.d.uint32 % b.d.uint32;
                rest.d.uint32 = res;
                zero = res == 0;
            },
            DataType::Uint64 => {
                if b.d.uint64 == 0 {
                    return Err(ExecError::DivisionByZero);
                }
                let res: u64 = a.d.uint64 % b.d.uint64;
                rest.d.uint64 = res;
                zero = res == 0;
            },
            DataType::Int32 => {
                if b.d.int32 == 0 {
                    return Err(ExecError::DivisionByZero);
                }
                let res: i32 = match a.d.int32.checked_rem(b.d.int32) {
                    Some(res) => res,
                    None => 0,
                };
                proof {
                    semantics::lemma_truncated_rem_bounds(a.d.int32 as int, b.d.int32 as int);
                }
                rest.d.int32 = res;
                zero = res == 0;
            },
            DataType::Int64 => {
                if b.d.int64 == 0 {
                    return Err(ExecError::DivisionByZero);
                }
                let res: i64 = match a.d.int64.checked_rem(b.d.int64) {
                    Some(res) => res,
                    None => 0,
                };
                proof {
                    semantics::lemma_truncated_rem_bounds(a.d.int64 as int, b.d.int64 as int);
                }
                rest.d.int64 = res;
                zero = res == 0;
            },
            DataType::String | DataType::Char | DataType::Register => {
                return Err(ExecError::NotNumeric);
            },
        }
        if left.t == DataType::Register {
            self.store(target, rest);
        }
        self.raise(zero);
        Ok(Action::Continue)
    }

    fn jmp(&mut self, address: &GeneralData) -> (r: Result<Action, ExecError>) {
        self.jump(address, true)
    }

    fn jne(&mut self, address: &GeneralData) -> (r: Result<Action, ExecError>) {
        let taken: bool = !self.flags.zf;
        self.jump(address, taken)
    }

    fn je(&mut self, address: &GeneralData) -> (r: Result<Action, ExecError>) {
        let taken: bool = self.flags.zf;
        self.jump(address, taken)
    }

    fn pnl(&mut self, any: &GeneralData) -> (r: Result<Action, ExecError>) {
        let value: &GeneralData = match self.operand(any) {
            Ok(g) => g,
            Err(e) => {
                return Err(e);
            },
        };
        match value.to_text() {
            Some(text) => Ok(Action::Print(text)),
            None => Ok(Action::PrintFloat(Self::float_bits(value))),
        }
    }

    fn cmp(&mut self, left: &GeneralData, right: &GeneralData) -> (r: Result<Action, ExecError>) {
        let a: &GeneralData = match self.operand(left) {
            Ok(g) => g,
            Err(e) => {
                return Err(e);
            },
        };
        let b: &GeneralData = match self.operand(right) {
            Ok(g) => g,
            Err(e) => {
                return Err(e);
            },
        };
        if a.t != b.t {
            return Err(ExecError::TagMismatch);
        }
        let equal: bool = a.t != DataType::Register && a.same_as(b);
        self.raise(equal);
        Ok(Action::Continue)
    }
}

} // verus!
