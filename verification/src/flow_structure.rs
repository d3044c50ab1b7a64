//! Instructions: the operation codes, an instruction with its operands, the
//! ways in which executing one can fail, and what the machine may ask of its
//! host.

use vstd::prelude::*;
use crate::data_types::{GeneralData, Value};
use crate::registers::Register;
use crate::semantics;
use crate::semantics::Machine;
use crate::text::{chars_of, spells, to_upper, uppercase_of};

verus! {

/// The operation codes. `COUNT` closes the list and names no operation.
#[derive(Debug, Clone, Copy, PartialEq, Eq, Structural)]
pub enum OpCode {
    MOV,
    PUSH,
    POP,
    ADD,
    SUB,
    MUL,
    DIV,
    MOD,
    CMP,
    JNE,
    JMP,
    JE,
    INC,
    OR,
    AND,
    XOR,
    CALL,
    RET,
    STDOUT,
    STDIN,
    PNL,
    MALLOC,
    FREE,
    COUNT,
}

impl OpCode {
    /// The operation that an upper-case mnemonic names. `COUNT` is not a
    /// mnemonic.
    pub open spec fn named(upper: Seq<char>) -> Option<OpCode> {
        if upper == "MOV"@ {
            Some(OpCode::MOV)
        } else if upper == "PUSH"@ {
            Some(OpCode::PUSH)
        } else if upper == "POP"@ {
            Some(OpCode::POP)
        } else if upper == "ADD"@ {
            Some(OpCode::ADD)
        } else if upper == "SUB"@ {
            Some(OpCode::SUB)
        } else if upper == "MUL"@ {
            Some(OpCode::MUL)
        } else if upper == "DIV"@ {
            Some(OpCode::DIV)
        } else if upper == "MOD"@ {
            Some(OpCode::MOD)
        } else if upper == "CMP"@ {
            Some(OpCode::CMP)
        } else if upper == "JNE"@ {
            Some(OpCode::JNE)
        } else if upper == "JMP"@ {
            Some(OpCode::JMP)
        } else if upper == "JE"@ {
            Some(OpCode::JE)
        } else if upper == "INC"@ {
            Some(OpCode::INC)
        } else if upper == "OR"@ {
            Some(OpCode::OR)
        } else if upper == "AND"@ {
            Some(OpCode::AND)
        } else if upper == "XOR"@ {
            Some(OpCode::XOR)
        } else if upper == "CALL"@ {
            Some(OpCode::CALL)
        } else if upper == "RET"@ {
            Some(OpCode::RET)
        } else if upper == "STDOUT"@ {
            Some(OpCode::STDOUT)
        } else if upper == "STDIN"@ {
            Some(OpCode::STDIN)
        } else if upper == "PNL"@ {
            Some(OpCode::PNL)
        } else if upper == "MALLOC"@ {
            Some(OpCode::MALLOC)
        } else if upper == "FREE"@ {
            Some(OpCode::FREE)
        } else {
            None
        }
    }

    /// The name under which the operation is written and printed.
    pub open spec fn mnemonic(self) -> Seq<char> {
        match self {
            OpCode::MOV => "MOV"@,
            OpCode::PUSH => "PUSH"@,
            OpCode::POP => "POP"@,
            OpCode::ADD => "ADD"@,
            OpCode::SUB => "SUB"@,
            OpCode::MUL => "MUL"@,
            OpCode::DIV => "DIV"@,
            OpCode::MOD => "MOD"@,
            OpCode::CMP => "CMP"@,
            OpCode::JNE => "JNE"@,
            OpCode::JMP => "JMP"@,
            OpCode::JE => "JE"@,
            OpCode::INC => "INC"@,
            OpCode::OR => "OR"@,
            OpCode::AND => "AND"@,
            OpCode::XOR => "XOR"@,
            OpCode::CALL => "CALL"@,
            OpCode::RET => "RET"@,
            OpCode::STDOUT => "STDOUT"@,
            OpCode::STDIN => "STDIN"@,
            OpCode::PNL => "PNL"@,
            OpCode::MALLOC => "MALLOC"@,
            OpCode::FREE => "FREE"@,
            OpCode::COUNT => "COUNT"@,
        }
    }

    /// Whether the operation transfers control.
    pub open spec fn is_jump(self) -> bool {
        self == OpCode::JMP || self == OpCode::JNE || self == OpCode::JE
    }

    /// The number of operands that the operation takes.
    pub open spec fn arity(self) -> nat {
        match self {
            OpCode::RET | OpCode::COUNT => 0,
            OpCode::JMP
            | OpCode::JE
            | OpCode::JNE
            | OpCode::PUSH
            | OpCode::POP
            | OpCode::INC
            | OpCode::CALL
            | OpCode::PNL
            | OpCode::STDOUT
            | OpCode::STDIN
            | OpCode::MALLOC
            | OpCode::FREE => 1,
            OpCode::MOV
            | OpCode::ADD
            | OpCode::SUB
            | OpCode::MUL
            | OpCode::DIV
            | OpCode::MOD
            | OpCode::CMP
            | OpCode::OR
            | OpCode::AND
            | OpCode::XOR => 2,
        }
    }

    /// Whether the machine executes the operation. The others are reserved.
    pub open spec fn is_implemented(self) -> bool {
        match self {
            OpCode::MOV
            | OpCode::ADD
            | OpCode::MOD
            | OpCode::CMP
            | OpCode::JNE
            | OpCode::JMP
            | OpCode::JE
            | OpCode::PNL => true,
            _ => false,
        }
    }

    /// Whether the operation transfers control.
    pub fn transfers_control(self) -> (r: bool)
        ensures
            r == self.is_jump(),
    {
        match self {
            OpCode::JMP | OpCode::JNE | OpCode::JE => true,
            _ => false,
        }
    }

    /// The name under which the operation is written and printed.
    pub fn name(self) -> (r: String)
        ensures
            r@ == self.mnemonic(),
    {
        match self {
            OpCode::MOV => "MOV".to_owned(),
            OpCode::PUSH => "PUSH".to_owned(),
            OpCode::POP => "POP".to_owned(),
            OpCode::ADD => "ADD".to_owned(),
            OpCode::SUB => "SUB".to_owned(),
            OpCode::MUL => "MUL".to_owned(),
            OpCode::DIV => "DIV".to_owned(),
            OpCode::MOD => "MOD".to_owned(),
            OpCode::CMP => "CMP".to_owned(),
            OpCode::JNE => "JNE".to_owned(),
            OpCode::JMP => "JMP".to_owned(),
            OpCode::JE => "JE".to_owned(),
            OpCode::INC => "INC".to_owned(),
            OpCode::OR => "OR".to_owned(),
            OpCode::AND => "AND".to_owned(),
            OpCode::XOR => "XOR".to_owned(),
            OpCode::CALL => "CALL".to_owned(),
            OpCode::RET => "RET".to_owned(),
            OpCode::STDOUT => "STDOUT".to_owned(),
            OpCode::STDIN => "STDIN".to_owned(),
            OpCode::PNL => "PNL".to_owned(),
            OpCode::MALLOC => "MALLOC".to_owned(),
            OpCode::FREE => "FREE".to_owned(),
            OpCode::COUNT => "COUNT".to_owned(),
        }
    }

    /// Looks an upper-case spelling up among the mnemonics.
    pub fn from_upper(upper: &str) -> (r: Option<OpCode>)
        ensures
            r == Self::named(upper@),
    {
        let word = chars_of(upper);
        if spells(&word, "MOV") {
            Some(OpCode::MOV)
        } else if spells(&word, "PUSH") {
            Some(OpCode::PUSH)
        } else if spells(&word, "POP") {
            Some(OpCode::POP)
        } else if spells(&word, "ADD") {
            Some(OpCode::ADD)
        } else if spells(&word, "SUB") {
            Some(OpCode::SUB)
        } else if spells(&word, "MUL") {
            Some(OpCode::MUL)
        } else if spells(&word, "DIV") {
            Some(OpCode::DIV)
        } else if spells(&word, "MOD") {
            Some(OpCode::MOD)
        } else if spells(&word, "CMP") {
            Some(OpCode::CMP)
        } else if spells(&word, "JNE") {
            Some(OpCode::JNE)
        } else if spells(&word, "JMP") {
            Some(OpCode::JMP)
        } else if spells(&word, "JE") {
            Some(OpCode::JE)
        } else if spells(&word, "INC") {
            Some(OpCode::INC)
        } else if spells(&word, "OR") {
            Some(OpCode::OR)
        } else if spells(&word, "AND") {
            Some(OpCode::AND)
        } else if spells(&word, "XOR") {
            Some(OpCode::XOR)
        } else if spells(&word, "CALL") {
            Some(OpCode::CALL)
        } else if spells(&word, "RET") {
            Some(OpCode::RET)
        } else if spells(&word, "STDOUT") {
            Some(OpCode::STDOUT)
        } else if spells(&word, "STDIN") {
            Some(OpCode::STDIN)
        } else if spells(&word, "PNL") {
            Some(OpCode::PNL)
        } else if spells(&word, "MALLOC") {
            Some(OpCode::MALLOC)
        } else if spells(&word, "FREE") {
            Some(OpCode::FREE)
        } else {
            None
        }
    }

    /// Whether `name` is a mnemonic, whatever its letter case.
    pub fn isop(name: &String) -> (r: bool)
        ensures
            r == Self::named(uppercase_of(name@)).is_some(),
    {
        Self::from_string(name).is_some()
    }

    /// The operation that `name` names, whatever its letter case; `None` if
    /// it names none.
    pub fn from_string(name: &String) -> (r: Option<OpCode>)
        ensures
            r == Self::named(uppercase_of(name@)),
    {
        let upper = to_upper(name.as_str());
        Self::from_upper(upper.as_str())
    }
}

/// The name of an operation names that operation, `COUNT` excepted, which
/// is no mnemonic.
pub proof fn lemma_mnemonic_names_its_operation(op: OpCode)
    ensures
        OpCode::named(op.mnemonic()) == if op == OpCode::COUNT {
            None
        } else {
            Some(op)
        },
{
    reveal_strlit("MOV");
    reveal_strlit("PUSH");
    reveal_strlit("POP");
    reveal_strlit("ADD");
    reveal_strlit("SUB");
    reveal_strlit("MUL");
    reveal_strlit("DIV");
    reveal_strlit("MOD");
    reveal_strlit("CMP");
    reveal_strlit("JNE");
    reveal_strlit("JMP");
    reveal_strlit("JE");
    reveal_strlit("INC");
    reveal_strlit("OR");
    reveal_strlit("AND");
    reveal_strlit("XOR");
    reveal_strlit("CALL");
    reveal_strlit("RET");
    reveal_strlit("STDOUT");
    reveal_strlit("STDIN");
    reveal_strlit("PNL");
    reveal_strlit("MALLOC");
    reveal_strlit("FREE");
    reveal_strlit("COUNT");
    // Two names differ in their length or in one of these characters.
    let name = op.mnemonic();
    let marks = (name.len(), name[0], name[1], name[name.len() - 1]);
    match op {
        OpCode::MOV => {
            assert(name == "MOV"@);
        },
        OpCode::PUSH => {
            assert(name == "PUSH"@);
        },
        OpCode::POP => {
            assert(name == "POP"@);
        },
        OpCode::ADD => {
            assert(name == "ADD"@);
        },
        OpCode::SUB => {
            assert(name == "SUB"@);
        },
        OpCode::MUL => {
            assert(name == "MUL"@);
        },
        OpCode::DIV => {
            assert(name == "DIV"@);
        },
        OpCode::MOD => {
            assert(name == "MOD"@);
        },
        OpCode::CMP => {
            assert(name == "CMP"@);
        },
        OpCode::JNE => {
            assert(name == "JNE"@);
        },
        OpCode::JMP => {
            assert(name == "JMP"@);
        },
        OpCode::JE => {
            assert(name == "JE"@);
        },
        OpCode::INC => {
            assert(name == "INC"@);
        },
        OpCode::OR => {
            assert(name == "OR"@);
        },
        OpCode::AND => {
            assert(name == "AND"@);
        },
        OpCode::XOR => {
            assert(name == "XOR"@);
        },
        OpCode::CALL => {
            assert(name == "CALL"@);
        },
        OpCode::RET => {
            assert(name == "RET"@);
        },
        OpCode::STDOUT => {
            assert(name == "STDOUT"@);
        },
        OpCode::STDIN => {
            assert(name == "STDIN"@);
        },
        OpCode::PNL => {
            assert(name == "PNL"@);
        },
        OpCode::MALLOC => {
            assert(name == "MALLOC"@);
        },
        OpCode::FREE => {
            assert(name == "FREE"@);
        },
        OpCode::COUNT => {
            assert(name == "COUNT"@);
        },
    }
}

/// No register name is a mnemonic, so that the order in which the two are
/// looked up does not matter.
pub proof fn lemma_registers_are_no_mnemonics(upper: Seq<char>)
    requires
        Register::named(upper).is_some(),
    ensures
        OpCode::named(upper).is_none(),
{
    reveal_strlit("MOV");
    reveal_strlit("PUSH");
    reveal_strlit("POP");
    reveal_strlit("ADD");
    reveal_strlit("SUB");
    reveal_strlit("MUL");
    reveal_strlit("DIV");
    reveal_strlit("MOD");
    reveal_strlit("CMP");
    reveal_strlit("JNE");
    reveal_strlit("JMP");
    reveal_strlit("JE");
    reveal_strlit("INC");
    reveal_strlit("OR");
    reveal_strlit("AND");
    reveal_strlit("XOR");
    reveal_strlit("CALL");
    reveal_strlit("RET");
    reveal_strlit("STDOUT");
    reveal_strlit("STDIN");
    reveal_strlit("PNL");
    reveal_strlit("MALLOC");
    reveal_strlit("FREE");
}

/// The model of an instruction.
pub struct Instr {
    pub op: OpCode,
    pub args: Seq<Value>,
}

/// An instruction: an operation and its operands, in the order in which they
/// were written.
#[derive(Debug)]
pub struct FlowStructure {
    pub op_code: OpCode,
    pub arguments: Vec<GeneralData>,
}

/// The models of a sequence of values.
pub open spec fn values_of(data: Seq<GeneralData>) -> Seq<Value> {
    data.map_values(|g: GeneralData| g@)
}

impl View for FlowStructure {
    type V = Instr;

    open spec fn view(&self) -> Instr {
        Instr { op: self.op_code, args: values_of(self.arguments@) }
    }
}

/// The models of a sequence of instructions.
pub open spec fn instrs_of(flow: Seq<FlowStructure>) -> Seq<Instr> {
    flow.map_values(|f: FlowStructure| f@)
}

/// Why the machine refuses to execute an instruction.
#[derive(Debug, Clone, Copy, PartialEq, Eq, Structural)]
pub enum ExecError {
    /// The operation is reserved and has no meaning yet.
    Unimplemented,
    /// The instruction does not have as many operands as its operation takes.
    OperandCount,
    /// The destination is not a register.
    Destination,
    /// An operand names `NIL`, which has no storage slot.
    NoSuchRegister,
    /// The two operands are of different kinds.
    TagMismatch,
    /// The operands are not numbers.
    NotNumeric,
    /// The divisor is zero.
    DivisionByZero,
    /// The operand of a jump is not a 64-bit signed integer, or it is the
    /// least one, which has no predecessor.
    Address,
    /// The target of a jump lies outside the program.
    JumpOutOfRange,
}

/// The bit pattern of a floating-point number of either width.
#[derive(Debug, Clone, Copy, PartialEq, Eq, Structural)]
pub enum FloatBits {
    Single(u32),
    Double(u64),
}

impl FloatBits {
    /// The value with this bit pattern.
    pub open spec fn value(self) -> Value {
        match self {
            FloatBits::Single(bits) => Value::Float(bits),
            FloatBits::Double(bits) => Value::Double(bits),
        }
    }

    /// Whether the number is a zero of either sign.
    pub open spec fn is_zero(self) -> bool {
        match self {
            FloatBits::Single(bits) => crate::data_types::float_is_zero(bits),
            FloatBits::Double(bits) => crate::data_types::double_is_zero(bits),
        }
    }
}

/// The floating-point operations that the machine leaves to its host.
#[derive(Debug, Clone, Copy, PartialEq, Eq, Structural)]
pub enum FloatOp {
    /// The sum of the two operands.
    Add,
    /// The remainder of the left operand divided by the right one, with the
    /// sign of the left one.
    Rem,
}

/// A floating-point operation that the host is asked to carry out. The
/// host hands the result to the machine, which stores it in `target` unless
/// that is `NIL`, and, for a remainder, sets the zero flag from it.
#[derive(Debug, Clone, Copy, PartialEq, Eq, Structural)]
pub struct FloatRequest {
    pub op: FloatOp,
    pub left: FloatBits,
    pub right: FloatBits,
    pub target: Register,
}

/// What an executed instruction asks of the host.
#[derive(Debug)]
pub enum Action {
    /// Nothing.
    Continue,
    /// Write the text and a newline to standard output.
    Print(String),
    /// Write the number and a newline to standard output.
    PrintFloat(FloatBits),
    /// Carry out the operation and hand back the result.
    Float(FloatRequest),
}

/// The model of an [`Action`].
pub enum ActionView {
    Continue,
    Print(Seq<char>),
    PrintFloat(FloatBits),
    Float(FloatRequest),
}

impl View for Action {
    type V = ActionView;

    open spec fn view(&self) -> ActionView {
        match self {
            Action::Continue => ActionView::Continue,
            Action::Print(s) => ActionView::Print(s@),
            Action::PrintFloat(bits) => ActionView::PrintFloat(*bits),
            Action::Float(request) => ActionView::Float(*request),
        }
    }
}

/// Whether a handler kept its promise: on success the machine is in the
/// expected state and the expected action is handed out; on failure the
/// expected error is reported and the machine is as it was.
pub open spec fn fulfils(
    before: Machine,
    after: Machine,
    result: Result<Action, ExecError>,
    expected: semantics::Outcome,
) -> bool {
    match expected {
        Ok((m, action)) => {
            &&& result matches Ok(a) && a@ == action
            &&& after.regs =~= m.regs
            &&& after.zf == m.zf
            &&& after.pc == m.pc
        },
        Err(e) => {
            &&& result matches Err(f) && f == e
            &&& after.regs =~= before.regs
            &&& after.zf == before.zf
            &&& after.pc == before.pc
        },
    }
}

/// The handlers of the instructions, one for each operation that takes
/// operands. A handler that fails leaves the machine untouched.
pub trait IstrTraits {
    /// The state of the machine on which the handlers work.
    spec fn machine(&self) -> Machine;

    /// `MOV register, any`.
    fn mov(&mut self, register: &GeneralData, any: &GeneralData) -> (r: Result<Action, ExecError>)
        ensures
            fulfils(
                old(self).machine(),
                final(self).machine(),
                r,
                semantics::mov_step(old(self).machine(), register@, any@),
            ),
    ;

    /// `POP register`, reserved.
    fn pop(&mut self, register: &GeneralData) -> (r: Result<Action, ExecError>)
        ensures
            fulfils(old(self).machine(), final(self).machine(), r, Err(ExecError::Unimplemented)),
    ;

    /// `PUSH any`, reserved.
    fn push(&mut self, any: GeneralData) -> (r: Result<Action, ExecError>)
        ensures
            fulfils(old(self).machine(), final(self).machine(), r, Err(ExecError::Unimplemented)),
    ;

    /// `ADD left, right`.
    fn add(&mut self, left: &GeneralData, right: &GeneralData) -> (r: Result<Action, ExecError>)
        ensures
            fulfils(
                old(self).machine(),
                final(self).machine(),
                r,
                semantics::add_step(old(self).machine(), left@, right@),
            ),
    ;

    /// `SUB left, right`, reserved.
    fn sub(&mut self, left: &GeneralData, right: &GeneralData) -> (r: Result<Action, ExecError>)
        ensures
            fulfils(old(self).machine(), final(self).machine(), r, Err(ExecError::Unimplemented)),
    ;

    /// `MUL left, right`, reserved.
    fn mul(&mut self, left: &GeneralData, right: &GeneralData) -> (r: Result<Action, ExecError>)
        ensures
            fulfils(old(self).machine(), final(self).machine(), r, Err(ExecError::Unimplemented)),
    ;

    /// `DIV left, right`, reserved.
    fn div(&mut self, left: &GeneralData, right: &GeneralData) -> (r: Result<Action, ExecError>)
        ensures
            fulfils(old(self).machine(), final(self).machine(), r, Err(ExecError::Unimplemented)),
    ;

    /// `MOD left, right`.
    fn modu(&mut self, left: &GeneralData, right: &GeneralData) -> (r: Result<Action, ExecError>)
        ensures
            fulfils(
                old(self).machine(),
                final(self).machine(),
                r,
                semantics::rem_step(old(self).machine(), left@, right@),
            ),
    ;

    /// `JMP address`.
    fn jmp(&mut self, address: &GeneralData) -> (r: Result<Action, ExecError>)
        ensures
            fulfils(
                old(self).machine(),
                final(self).machine(),
                r,
                semantics::jump_step(old(self).machine(), address@, true),
            ),
    ;

    /// `JNE address`.
    fn jne(&mut self, address: &GeneralData) -> (r: Result<Action, ExecError>)
        ensures
            fulfils(
                old(self).machine(),
                final(self).machine(),
                r,
                semantics::jump_step(old(self).machine(), address@, !old(self).machine().zf),
            ),
    ;

    /// `JE address`.
    fn je(&mut self, address: &GeneralData) -> (r: Result<Action, ExecError>)
        ensures
            fulfils(
                old(self).machine(),
                final(self).machine(),
                r,
                semantics::jump_step(old(self).machine(), address@, old(self).machine().zf),
            ),
    ;

    /// `PNL any`.
    fn pnl(&mut self, any: &GeneralData) -> (r: Result<Action, ExecError>)
        ensures
            fulfils(
                old(self).machine(),
                final(self).machine(),
                r,
                semantics::print_step(old(self).machine(), any@),
            ),
    ;

    /// `CMP left, right`.
    fn cmp(&mut self, left: &GeneralData, right: &GeneralData) -> (r: Result<Action, ExecError>)
        ensures
            fulfils(
                old(self).machine(),
                final(self).machine(),
                r,
                semantics::compare_step(old(self).machine(), left@, right@),
            ),
    ;
}

} // verus!
