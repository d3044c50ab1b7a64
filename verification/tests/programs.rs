use asmvm::data_types::{AnyData, DataType, GeneralData};
use asmvm::env_vars::EnvVars;
use asmvm::flow_structure::{Action, ExecError, FloatBits, FloatOp, FlowStructure, OpCode};
use asmvm::interpreter::Interpreter;
use asmvm::parser::{Parser, ParserError};
use asmvm::registers::Register;
use asmvm::structures::{GeneralStructure, Progress};
use asmvm::tokenizer::Tokenizer;

fn assemble(source: &str) -> Vec<FlowStructure> {
    let mut parser = Parser::init(String::from(source));
    parser.parse().expect("the source is well formed");
    let mut tokenizer = Tokenizer::init(parser);
    Interpreter::interpret(tokenizer.tokenize())
}

fn host_float(op: FloatOp, left: FloatBits, right: FloatBits) -> FloatBits {
    match (left, right) {
        (FloatBits::Single(a), FloatBits::Single(b)) => {
            let (a, b) = (f32::from_bits(a), f32::from_bits(b));
            FloatBits::Single(match op {
                FloatOp::Add => (a + b).to_bits(),
                FloatOp::Rem => (a % b).to_bits(),
            })
        }
        (FloatBits::Double(a), FloatBits::Double(b)) => {
            let (a, b) = (f64::from_bits(a), f64::from_bits(b));
            FloatBits::Double(match op {
                FloatOp::Add => (a + b).to_bits(),
                FloatOp::Rem => (a % b).to_bits(),
            })
        }
        _ => unreachable!(),
    }
}

fn drive(machine: &mut GeneralStructure) -> Result<String, ExecError> {
    let mut out = String::new();
    loop {
        match machine.run(1_000_000)? {
            Progress::Halted => return Ok(out),
            Progress::Exhausted => panic!("the program does not end"),
            Progress::Host(Action::Continue) => {}
            Progress::Host(Action::Print(text)) => {
                out.push_str(&text);
                out.push('\n');
            }
            Progress::Host(Action::PrintFloat(FloatBits::Single(bits))) => {
                out.push_str(&format!("{}\n", f32::from_bits(bits)));
            }
            Progress::Host(Action::PrintFloat(FloatBits::Double(bits))) => {
                out.push_str(&format!("{}\n", f64::from_bits(bits)));
            }
            Progress::Host(Action::Float(request)) => {
                let result = host_float(request.op, request.left, request.right);
                machine.complete_float(&request, result);
            }
        }
    }
}

fn run_source(source: &str) -> (Result<String, ExecError>, GeneralStructure) {
    let mut machine = GeneralStructure::init(assemble(source));
    let out = drive(&mut machine);
    (out, machine)
}

fn int64_of(env: &EnvVars, reg: Register) -> i64 {
    let value = env.register(reg).expect("a register with a slot");
    assert_eq!(value.t, DataType::Int64);
    value.d.int64
}

fn immediate(v: i64) -> GeneralData {
    GeneralData { t: DataType::Int64, d: AnyData::from(v) }
}

fn reg(r: Register) -> GeneralData {
    GeneralData { t: DataType::Register, d: AnyData::from(r) }
}

fn float(v: f32) -> GeneralData {
    GeneralData { t: DataType::Float, d: AnyData::from_float_bits(v.to_bits()) }
}

fn double(v: f64) -> GeneralData {
    GeneralData { t: DataType::Double, d: AnyData::from_double_bits(v.to_bits()) }
}

fn instr(op: OpCode, args: Vec<GeneralData>) -> FlowStructure {
    FlowStructure { op_code: op, arguments: args }
}

#[test]
fn prints_a_moved_immediate() {
    let (out, _) = run_source("MOV RAX, 5\nPNL RAX");
    assert_eq!(out, Ok(String::from("5\n")));
}

#[test]
fn adds_literals_of_two_bases() {
    let (out, _) = run_source("MOV RAX, 0x10\nMOV RBX, 0b10\nADD RAX, RBX\nPNL RAX");
    assert_eq!(out, Ok(String::from("18\n")));
}

#[test]
fn jump_on_equal_skips_to_the_label() {
    let source = "MOV RAX,5\nMOV RBX,5\nCMP RAX,RBX\nJE skip\nPNL RAX\n:skip\nPNL RBX";
    let (out, machine) = run_source(source);
    assert_eq!(out, Ok(String::from("5\n")));
    assert!(machine.env().zf());
    assert!(machine.is_halted());
}

#[test]
fn jump_on_equal_falls_through_when_unequal() {
    let source = "MOV RAX,5\nMOV RBX,6\nCMP RAX,RBX\nJE skip\nPNL RAX\n:skip\nPNL RBX";
    let (out, machine) = run_source(source);
    assert_eq!(out, Ok(String::from("5\n6\n")));
    assert!(!machine.env().zf());
}

#[test]
fn countdown_leaves_through_a_label_at_the_end() {
    let source = "MOV RAX, 3\n:loop\n  PNL RAX\n  MOV RBX, 1\n  CMP RAX, RBX\n  JE end\n  ; nothing decrements, so leave at once\n  MOV RAX, 1\n  JMP loop\n:end\n";
    let (out, machine) = run_source(source);
    assert_eq!(out, Ok(String::from("3\n1\n")));
    assert!(machine.is_halted());
    assert_eq!(machine.env().pc, 7);
}

#[test]
fn remainder_that_is_not_zero_lowers_the_flag() {
    let (out, machine) = run_source("MOV RAX, 10\nMOV RBX, 3\nMOD RAX, RBX\nPNL RAX");
    assert_eq!(out, Ok(String::from("1\n")));
    assert!(!machine.env().zf());
}

#[test]
fn remainder_that_is_zero_raises_the_flag() {
    let (out, machine) = run_source("MOV RAX, 9\nMOV RBX, 3\nMOD RAX, RBX\nPNL RAX");
    assert_eq!(out, Ok(String::from("0\n")));
    assert!(machine.env().zf());
}

#[test]
fn label_definition_emits_no_instruction() {
    let flow = assemble(":start\nPNL 42");
    assert_eq!(flow.len(), 1);
    assert_eq!(flow[0].op_code, OpCode::PNL);
    let (out, _) = run_source(":start\nPNL 42");
    assert_eq!(out, Ok(String::from("42\n")));
}

#[test]
fn immediate_and_register_operands_add_alike() {
    let (_, direct) = run_source("MOV RAX, 5\nADD RAX, 3");
    let (_, indirect) = run_source("MOV RAX, 5\nMOV RBX, 3\nADD RAX, RBX");
    assert_eq!(int64_of(direct.env(), Register::RAX), 8);
    assert_eq!(int64_of(indirect.env(), Register::RAX), 8);
}

#[test]
fn jump_to_a_label_runs_the_instruction_behind_it() {
    let source = "JMP there\nPNL 1\nPNL 2\n:there\nPNL 3\nPNL 4";
    let (out, _) = run_source(source);
    assert_eq!(out, Ok(String::from("3\n4\n")));
}

#[test]
fn jump_lands_on_its_target_index() {
    let flow = vec![
        instr(OpCode::JMP, vec![immediate(2)]),
        instr(OpCode::PNL, vec![immediate(10)]),
        instr(OpCode::PNL, vec![immediate(20)]),
        instr(OpCode::PNL, vec![immediate(30)]),
    ];
    let mut machine = GeneralStructure::init(flow);
    match machine.run(1) {
        Ok(Progress::Exhausted) => {}
        other => panic!("unexpected rest: {:?}", other),
    }
    assert_eq!(machine.env().pc, 2);
    assert_eq!(drive(&mut machine), Ok(String::from("20\n30\n")));
}

#[test]
fn backward_jump_loops_until_the_flag_changes() {
    let source = "MOV RAX, 0\n:again\nADD RAX, 1\nCMP RAX, 3\nJNE again\nPNL RAX";
    let (out, _) = run_source(source);
    assert_eq!(out, Ok(String::from("3\n")));
}

#[test]
fn jump_through_a_register_uses_the_stored_index() {
    let (out, _) = run_source("MOV RCX, 3\nJMP RCX\nPNL 1\nPNL 2");
    assert_eq!(out, Ok(String::from("2\n")));
}

#[test]
fn endless_program_uses_up_its_allowance() {
    let mut machine = GeneralStructure::init(assemble(":a\nJMP a"));
    match machine.run(1000) {
        Ok(Progress::Exhausted) => {}
        other => panic!("unexpected rest: {:?}", other),
    }
    assert!(!machine.is_halted());
    assert_eq!(machine.env().pc, 0);
}

#[test]
fn run_yields_at_every_print() {
    let mut machine = GeneralStructure::init(assemble("PNL 1\nPNL 2"));
    match machine.run(10) {
        Ok(Progress::Host(Action::Print(text))) => assert_eq!(text, "1"),
        other => panic!("unexpected rest: {:?}", other),
    }
    assert_eq!(machine.env().pc, 1);
    match machine.run(10) {
        Ok(Progress::Host(Action::Print(text))) => assert_eq!(text, "2"),
        other => panic!("unexpected rest: {:?}", other),
    }
    match machine.run(10) {
        Ok(Progress::Halted) => {}
        other => panic!("unexpected rest: {:?}", other),
    }
}

#[test]
fn empty_program_halts_at_once() {
    let (out, machine) = run_source("");
    assert_eq!(out, Ok(String::new()));
    assert!(machine.is_halted());
}

#[test]
fn next_runs_a_new_program_on_the_old_registers() {
    let (_, mut machine) = run_source("MOV RAX, 7");
    match machine.next(assemble("PNL RAX"), 10) {
        Ok(Progress::Host(Action::Print(text))) => assert_eq!(text, "7"),
        other => panic!("unexpected rest: {:?}", other),
    }
}

#[test]
fn prints_texts_and_register_defaults() {
    let (out, _) = run_source("PNL \"hello, world\"\nPNL RDX");
    assert_eq!(out, Ok(String::from("hello, world\n0\n")));
}

#[test]
fn fault_stops_the_run_and_keeps_the_state() {
    let (out, machine) = run_source("MOV RAX, 1\nMOV RBX, text\nADD RAX, RBX\nPNL RAX");
    assert_eq!(out, Err(ExecError::TagMismatch));
    assert_eq!(machine.env().pc, 2);
    assert_eq!(int64_of(machine.env(), Register::RAX), 1);
}

#[test]
fn reserved_mnemonic_faults_when_executed() {
    let (out, machine) = run_source("PNL 1\nPUSH RAX\nPNL 2");
    assert_eq!(out, Err(ExecError::Unimplemented));
    assert_eq!(machine.env().pc, 1);
}

#[test]
fn jump_out_of_the_program_faults() {
    let (out, machine) = run_source("PNL 1\nJMP 7");
    assert_eq!(out, Err(ExecError::JumpOutOfRange));
    assert_eq!(machine.env().pc, 1);
    let (out, _) = run_source("JMP -1");
    assert_eq!(out, Err(ExecError::JumpOutOfRange));
}

#[test]
fn jump_to_the_end_halts() {
    let (out, machine) = run_source("JMP 2\nPNL 1");
    assert_eq!(out, Ok(String::new()));
    assert!(machine.is_halted());
}

#[test]
fn unterminated_text_is_refused() {
    let mut parser = Parser::init(String::from("PNL \"abc"));
    assert_eq!(parser.parse().err(), Some(ParserError::EOF));
}

#[test]
fn floats_are_added_by_the_host() {
    let flow = vec![
        instr(OpCode::MOV, vec![reg(Register::RAX), float(1.5)]),
        instr(OpCode::ADD, vec![reg(Register::RAX), float(2.25)]),
        instr(OpCode::PNL, vec![reg(Register::RAX)]),
        instr(OpCode::MOV, vec![reg(Register::RBX), double(0.5)]),
        instr(OpCode::ADD, vec![reg(Register::RBX), reg(Register::RBX)]),
        instr(OpCode::PNL, vec![reg(Register::RBX)]),
    ];
    let mut machine = GeneralStructure::init(flow);
    assert_eq!(drive(&mut machine), Ok(String::from("3.75\n1\n")));
    let rax = machine.env().register(Register::RAX).unwrap();
    assert_eq!(rax.t, DataType::Float);
    assert_eq!(f32::from_bits(rax.d.float), 3.75);
}

#[test]
fn float_remainder_sets_the_flag_from_the_result() {
    let flow = vec![
        instr(OpCode::MOV, vec![reg(Register::RAX), double(7.5)]),
        instr(OpCode::MOD, vec![reg(Register::RAX), double(2.5)]),
        instr(OpCode::PNL, vec![reg(Register::RAX)]),
    ];
    let mut machine = GeneralStructure::init(flow);
    assert_eq!(drive(&mut machine), Ok(String::from("0\n")));
    assert!(machine.env().zf());

    let flow = vec![
        instr(OpCode::MOV, vec![reg(Register::RAX), float(7.5)]),
        instr(OpCode::MOD, vec![float(7.0), reg(Register::RAX)]),
    ];
    let mut machine = GeneralStructure::init(flow);
    assert_eq!(drive(&mut machine), Ok(String::new()));
    assert!(!machine.env().zf());
    let rax = machine.env().register(Register::RAX).unwrap();
    assert_eq!(f32::from_bits(rax.d.float), 7.5);
}

#[test]
fn jump_to_an_undefined_label_faults() {
    let (out, machine) = run_source("PNL 1\nJMP nowhere\nPNL 2");
    assert_eq!(out, Err(ExecError::Address));
    assert_eq!(machine.env().pc, 1);
}

#[test]
fn remainder_of_two_immediates_is_refused() {
    let (out, _) = run_source("MOD 9, 3");
    assert_eq!(out, Err(ExecError::Destination));
}

#[test]
fn move_to_an_immediate_is_refused() {
    let (out, _) = run_source("MOV 5, RAX");
    assert_eq!(out, Err(ExecError::Destination));
}

#[test]
fn division_by_zero_is_refused() {
    let (out, machine) = run_source("MOV RAX, 5\nMOD RAX, 0");
    assert_eq!(out, Err(ExecError::DivisionByZero));
    assert_eq!(int64_of(machine.env(), Register::RAX), 5);
}

#[test]
fn literal_beyond_64_bits_wraps_around() {
    let (out, _) = run_source("PNL 18446744073709551617");
    assert_eq!(out, Ok(String::from("1\n")));
}

#[test]
fn mnemonics_and_registers_may_be_written_in_lower_case() {
    let (out, _) = run_source("mov eax, 0o17\nadd ax, 0x1\npnl rax");
    assert_eq!(out, Ok(String::from("16\n")));
}
