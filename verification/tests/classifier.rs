use asmvm::data_types::{AnyData, DataType};
use asmvm::flow_structure::OpCode;
use asmvm::parser::Parser;
use asmvm::registers::Register;
use asmvm::tokenizer::Tokenizer;
use asmvm::tokens::Tokens;

fn classify(source: &str) -> Vec<String> {
    let mut parser = Parser::init(String::from(source));
    parser.parse().expect("the source is well formed");
    let mut tokenizer = Tokenizer::init(parser);
    tokenizer.tokenize().iter().map(describe).collect()
}

fn describe(token: &Tokens) -> String {
    match token {
        Tokens::CHECKPOINT(s) => format!("label {}", s),
        Tokens::GOTO(s) => format!("goto {}", s),
        Tokens::DATA(DataType::Int64, d) => format!("int {}", d.int64),
        Tokens::DATA(DataType::String, d) => format!("text {}", d.string),
        Tokens::DATA(t, _) => format!("data {:?}", t),
        Tokens::INSTRUCTION(op) => format!("op {:?}", op),
        Tokens::REGISTER(r) => format!("reg {:?}", r),
        Tokens::COMMENT(s) => format!("comment {}", s),
    }
}

#[test]
fn register_aliases_name_the_same_register() {
    assert_eq!(classify("AX EAX rax"), vec!["reg RAX", "reg RAX", "reg RAX"]);
    assert_eq!(Register::from_string(&String::from("AX")), Some(Register::RAX));
    assert_eq!(Register::from_string(&String::from("EAX")), Some(Register::RAX));
    assert_eq!(Register::from_string(&String::from("rax")), Some(Register::RAX));
}

#[test]
fn all_register_names_are_known() {
    let bases = ["AX", "BX", "CX", "DX", "SI", "DI", "SP", "BP"];
    let registers = [
        Register::RAX,
        Register::RBX,
        Register::RCX,
        Register::RDX,
        Register::RSI,
        Register::RDI,
        Register::RSP,
        Register::RBP,
    ];
    for (base, reg) in bases.iter().zip(registers) {
        for width in ["", "E", "R", "e", "r"] {
            let name = format!("{}{}", width, base);
            assert!(Register::is_reg(&name), "{}", name);
            assert_eq!(Register::from_string(&name), Some(reg), "{}", name);
            assert_eq!(Register::from_string(&name.to_lowercase()), Some(reg), "{}", name);
        }
        assert_eq!(Register::from_upper(base), Some(reg));
    }
}

#[test]
fn other_names_are_no_registers() {
    for name in ["", "A", "X", "RA", "XAX", "RAXX", "AXR", "NIL", "RIP", "R AX", "MOV", "AL"] {
        assert!(!Register::is_reg(&String::from(name)), "{}", name);
        assert_eq!(Register::from_string(&String::from(name)), None, "{}", name);
    }
    assert_eq!(Register::from_upper("rax"), None);
}

#[test]
fn registers_have_their_ordinals_and_names() {
    assert_eq!(Register::RAX.index(), 0);
    assert_eq!(Register::RBP.index(), 7);
    assert_eq!(Register::NIL.index(), 8);
    assert_eq!(Register::RSI.name(), "RSI");
    assert_eq!(Register::NIL.name(), "NIL");
}

#[test]
fn mnemonics_are_known_in_any_letter_case() {
    let names = [
        ("MOV", OpCode::MOV),
        ("push", OpCode::PUSH),
        ("Pop", OpCode::POP),
        ("ADD", OpCode::ADD),
        ("sub", OpCode::SUB),
        ("MUL", OpCode::MUL),
        ("div", OpCode::DIV),
        ("MOD", OpCode::MOD),
        ("cmp", OpCode::CMP),
        ("JNE", OpCode::JNE),
        ("jmp", OpCode::JMP),
        ("JE", OpCode::JE),
        ("inc", OpCode::INC),
        ("OR", OpCode::OR),
        ("and", OpCode::AND),
        ("XOR", OpCode::XOR),
        ("call", OpCode::CALL),
        ("RET", OpCode::RET),
        ("stdout", OpCode::STDOUT),
        ("STDIN", OpCode::STDIN),
        ("pnl", OpCode::PNL),
        ("MALLOC", OpCode::MALLOC),
        ("free", OpCode::FREE),
    ];
    for (name, op) in names {
        assert!(OpCode::isop(&String::from(name)), "{}", name);
        assert_eq!(OpCode::from_string(&String::from(name)), Some(op), "{}", name);
        assert_eq!(OpCode::from_upper(&name.to_uppercase()), Some(op), "{}", name);
    }
}

#[test]
fn other_names_are_no_mnemonics() {
    for name in ["COUNT", "count", "", "MO", "MOVE", "JEQ", "DMP", "RAX", "J E"] {
        assert!(!OpCode::isop(&String::from(name)), "{}", name);
        assert_eq!(OpCode::from_string(&String::from(name)), None, "{}", name);
    }
    assert_eq!(OpCode::from_upper("mov"), None);
}

#[test]
fn classes_follow_their_order_of_precedence() {
    assert_eq!(
        classify("MOV RAX, 5 ; note\n:here\nJMP here\nPNL hello"),
        vec![
            "op MOV",
            "reg RAX",
            "int 5",
            "comment ; note",
            "label :here",
            "op JMP",
            "goto here",
            "op PNL",
            "text hello",
        ]
    );
}

#[test]
fn label_reference_needs_a_jump_before_it() {
    assert_eq!(
        classify(":spot\nPNL spot\nJE spot\nJNE spot\nJMP spot spot"),
        vec![
            "label :spot",
            "op PNL",
            "text spot",
            "op JE",
            "goto spot",
            "op JNE",
            "goto spot",
            "op JMP",
            "goto spot",
            "goto spot",
        ]
    );
}

#[test]
fn label_may_be_defined_after_its_use() {
    assert_eq!(classify("JMP end\n:end"), vec!["op JMP", "goto end", "label :end"]);
}

#[test]
fn undefined_label_is_a_text() {
    assert_eq!(classify("JMP nowhere"), vec!["op JMP", "text nowhere"]);
}

#[test]
fn numeral_after_a_jump_is_a_label_only_if_defined() {
    assert_eq!(classify("JMP 3\n:4\nJMP 4"), vec!["op JMP", "int 3", "label :4", "op JMP", "goto 4"]);
}

#[test]
fn quoted_tokens_are_classified_by_their_content() {
    assert_eq!(classify("PNL \"RAX\" '7' \"a b\""), vec!["op PNL", "reg RAX", "int 7", "text a b"]);
}

#[test]
fn classify_takes_the_upper_case_form_as_given() {
    let none: Vec<String> = Vec::new();
    let labels = vec![String::from(":top")];
    let token = String::from("top");
    assert_eq!(describe(&Tokenizer::classify(&token, "TOP", Some(OpCode::JMP), &labels)), "goto top");
    assert_eq!(describe(&Tokenizer::classify(&token, "TOP", Some(OpCode::MOV), &labels)), "text top");
    assert_eq!(describe(&Tokenizer::classify(&token, "TOP", None, &labels)), "text top");
    assert_eq!(describe(&Tokenizer::classify(&token, "TOP", Some(OpCode::JE), &none)), "text top");
    assert_eq!(describe(&Tokenizer::classify(&token, "RAX", Some(OpCode::JE), &labels)), "reg RAX");
    assert_eq!(describe(&Tokenizer::classify(&token, "ADD", Some(OpCode::JE), &labels)), "op ADD");
    let number = String::from("0x2A");
    assert_eq!(describe(&Tokenizer::classify(&number, "0X2A", None, &none)), "int 42");
}

#[test]
fn second_tokenize_adds_nothing() {
    let mut parser = Parser::init(String::from(":a\nJMP a"));
    parser.parse().expect("the source is well formed");
    let mut tokenizer = Tokenizer::init(parser);
    assert_eq!(tokenizer.tokenize().len(), 3);
    assert_eq!(tokenizer.tokenize().len(), 3);
    assert_eq!(tokenizer.tokens().len(), 3);
}

#[test]
fn tokens_print_their_class_and_content() {
    let shown = |t: Tokens| t.to_text();
    assert_eq!(shown(Tokens::CHECKPOINT(String::from(":top"))), Some(String::from("<Checkpoint :top>")));
    assert_eq!(shown(Tokens::GOTO(String::from("top"))), Some(String::from("<Goto top>")));
    assert_eq!(shown(Tokens::INSTRUCTION(OpCode::STDOUT)), Some(String::from("<Instruction STDOUT>")));
    assert_eq!(shown(Tokens::REGISTER(Register::RBP)), Some(String::from("<Register RBP>")));
    assert_eq!(shown(Tokens::COMMENT(String::from("; why"))), Some(String::from("<Comment \"; why\"")));
    assert_eq!(shown(Tokens::DATA(DataType::Uint32, AnyData::from(7u32))), Some(String::from("<Uint32 7>")));
    assert_eq!(shown(Tokens::DATA(DataType::Uint64, AnyData::from(7u64))), Some(String::from("<Uint64 7>")));
    assert_eq!(shown(Tokens::DATA(DataType::Int32, AnyData::from(-7i32))), Some(String::from("<Int32 -7>")));
    assert_eq!(shown(Tokens::DATA(DataType::Int64, AnyData::from(-7i64))), Some(String::from("<Int64 -7>")));
    assert_eq!(
        shown(Tokens::DATA(DataType::String, AnyData::from(&String::from("a b")))),
        Some(String::from("<String a b>"))
    );
    assert_eq!(shown(Tokens::DATA(DataType::Char, AnyData::from('c'))), Some(String::from("<Char c>")));
    assert_eq!(
        shown(Tokens::DATA(DataType::Register, AnyData::from(Register::RSI))),
        Some(String::from("<Register RSI>"))
    );
    assert_eq!(shown(Tokens::DATA(DataType::Float, AnyData::from_float_bits(0))), None);
    assert_eq!(shown(Tokens::DATA(DataType::Double, AnyData::from_double_bits(0))), None);
}

#[test]
fn operations_have_their_names() {
    assert_eq!(OpCode::MOV.name(), "MOV");
    assert_eq!(OpCode::MALLOC.name(), "MALLOC");
    assert_eq!(OpCode::COUNT.name(), "COUNT");
    for op in [OpCode::JE, OpCode::JNE, OpCode::JMP] {
        assert!(op.transfers_control());
        assert_eq!(OpCode::from_string(&op.name()), Some(op));
    }
    assert!(!OpCode::CMP.transfers_control());
    assert!(!OpCode::CALL.transfers_control());
}
