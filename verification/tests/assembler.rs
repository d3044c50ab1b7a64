use asmvm::data_types::{AnyData, DataType, GeneralData};
use asmvm::flow_structure::{FlowStructure, OpCode};
use asmvm::interpreter::Interpreter;
use asmvm::registers::Register;
use asmvm::tokens::Tokens;

fn number(v: i64) -> Tokens {
    Tokens::DATA(DataType::Int64, AnyData::from(v))
}

fn text(s: &str) -> Tokens {
    Tokens::DATA(DataType::String, AnyData::from(&String::from(s)))
}

fn op(code: OpCode) -> Tokens {
    Tokens::INSTRUCTION(code)
}

fn label(s: &str) -> Tokens {
    Tokens::CHECKPOINT(String::from(s))
}

fn goto(s: &str) -> Tokens {
    Tokens::GOTO(String::from(s))
}

fn show(value: &GeneralData) -> String {
    match value.t {
        DataType::Uint32 => format!("u32 {}", value.d.uint32),
        DataType::Uint64 => format!("u64 {}", value.d.uint64),
        DataType::Int32 => format!("i32 {}", value.d.int32),
        DataType::Int64 => format!("i64 {}", value.d.int64),
        DataType::Float => format!("f32 {}", f32::from_bits(value.d.float)),
        DataType::Double => format!("f64 {}", f64::from_bits(value.d.double)),
        DataType::String => format!("text {}", value.d.string),
        DataType::Char => format!("char {}", value.d.char),
        DataType::Register => format!("reg {:?}", value.d.register),
    }
}

fn listing(flow: &[FlowStructure]) -> Vec<String> {
    flow.iter()
        .map(|i| {
            let args: Vec<String> = i.arguments.iter().map(show).collect();
            format!("{:?} [{}]", i.op_code, args.join(", "))
        })
        .collect()
}

#[test]
fn operands_follow_their_mnemonic_in_order() {
    let tokens = vec![
        op(OpCode::MOV),
        Tokens::REGISTER(Register::RAX),
        number(5),
        op(OpCode::PNL),
        Tokens::REGISTER(Register::RAX),
    ];
    assert_eq!(listing(&Interpreter::interpret(&tokens)), vec!["MOV [reg RAX, i64 5]", "PNL [reg RAX]"]);
}

#[test]
fn last_instruction_is_emitted_at_the_end() {
    let tokens = vec![op(OpCode::PNL), number(1), op(OpCode::RET)];
    assert_eq!(listing(&Interpreter::interpret(&tokens)), vec!["PNL [i64 1]", "RET []"]);
    let tokens = vec![op(OpCode::RET)];
    assert_eq!(listing(&Interpreter::interpret(&tokens)), vec!["RET []"]);
}

#[test]
fn operands_before_the_first_mnemonic_go_to_it() {
    let tokens = vec![number(1), number(2), op(OpCode::ADD), number(3), op(OpCode::RET)];
    assert_eq!(listing(&Interpreter::interpret(&tokens)), vec!["ADD [i64 1, i64 2, i64 3]", "RET []"]);
}

#[test]
fn program_without_a_mnemonic_is_empty() {
    assert!(Interpreter::interpret(&vec![]).is_empty());
    let tokens = vec![label(":start"), number(42), Tokens::COMMENT(String::from("; x"))];
    assert!(Interpreter::interpret(&tokens).is_empty());
}

#[test]
fn labels_and_comments_emit_nothing() {
    let tokens = vec![
        label(":start"),
        op(OpCode::PNL),
        Tokens::COMMENT(String::from("; shows 42")),
        number(42),
        label(":end"),
    ];
    assert_eq!(listing(&Interpreter::interpret(&tokens)), vec!["PNL [i64 42]"]);
}

#[test]
fn label_is_the_index_of_the_instruction_behind_it() {
    let tokens = vec![
        op(OpCode::JMP),
        goto("b"),
        label(":a"),
        op(OpCode::PNL),
        number(1),
        label(":b"),
        op(OpCode::JE),
        goto("a"),
        op(OpCode::JNE),
        goto("c"),
        label(":c"),
    ];
    assert_eq!(
        listing(&Interpreter::interpret(&tokens)),
        vec!["JMP [i64 2]", "PNL [i64 1]", "JE [i64 1]", "JNE [i64 4]"]
    );
}

#[test]
fn later_definition_of_a_label_counts() {
    let tokens = vec![
        label(":x"),
        op(OpCode::PNL),
        number(1),
        label(":x"),
        op(OpCode::JMP),
        goto("x"),
    ];
    assert_eq!(listing(&Interpreter::interpret(&tokens)), vec!["PNL [i64 1]", "JMP [i64 1]"]);
}

#[test]
fn reference_to_an_undefined_label_is_dropped() {
    let tokens = vec![op(OpCode::JMP), goto("nowhere"), op(OpCode::RET)];
    assert_eq!(listing(&Interpreter::interpret(&tokens)), vec!["JMP []", "RET []"]);
}

#[test]
fn label_name_is_the_definition_without_its_first_character() {
    let tokens = vec![op(OpCode::RET), label(":"), label("xy"), op(OpCode::JMP), goto(""), goto("y")];
    assert_eq!(listing(&Interpreter::interpret(&tokens)), vec!["RET []", "JMP [i64 1, i64 1]"]);
}

#[test]
fn literals_of_every_kind_keep_their_value() {
    let tokens = vec![
        op(OpCode::PNL),
        Tokens::DATA(DataType::Uint32, AnyData::from(7u32)),
        Tokens::DATA(DataType::Uint64, AnyData::from(u64::MAX)),
        Tokens::DATA(DataType::Int32, AnyData::from(-7i32)),
        number(i64::MIN),
        Tokens::DATA(DataType::Float, AnyData::from_float_bits(1.5f32.to_bits())),
        Tokens::DATA(DataType::Double, AnyData::from_double_bits((-0.25f64).to_bits())),
        text("a b"),
        Tokens::DATA(DataType::Char, AnyData::from('q')),
        Tokens::DATA(DataType::Register, AnyData::from(Register::RSP)),
    ];
    assert_eq!(
        listing(&Interpreter::interpret(&tokens)),
        vec![
            "PNL [u32 7, u64 18446744073709551615, i32 -7, i64 -9223372036854775808, f32 1.5, \
             f64 -0.25, text a b, char q, reg RSP]"
        ]
    );
}

#[test]
fn literal_is_read_under_its_tag_only() {
    let mut data = AnyData::from(5i64);
    data.uint32 = 9;
    let tokens = vec![op(OpCode::PNL), Tokens::DATA(DataType::Int64, data)];
    let flow = Interpreter::interpret(&tokens);
    assert_eq!(flow[0].arguments[0].d.int64, 5);
    assert_eq!(flow[0].arguments[0].d.uint32, 0);
}
