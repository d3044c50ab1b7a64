//! Classified tokens.

use vstd::prelude::*;
use crate::data_types::{AnyData, DataType, GeneralData, Value};
use crate::flow_structure::OpCode;
use crate::registers::Register;

verus! {

/// The record that a literal token carries.
pub type TokensData = AnyData;

/// A token with its class.
#[derive(Debug)]
pub enum Tokens {
    /// The definition of a label, with its colon.
    CHECKPOINT(String),
    /// A reference to a label, the operand of a jump.
    GOTO(String),
    /// A literal.
    DATA(DataType, TokensData),
    /// A mnemonic.
    INSTRUCTION(OpCode),
    /// A register name.
    REGISTER(Register),
    /// A comment, with its semicolon.
    COMMENT(String),
}

/// The model of a classified token.
pub enum Token {
    Checkpoint(Seq<char>),
    Goto(Seq<char>),
    Data(Value),
    Instruction(OpCode),
    Register(Register),
    Comment(Seq<char>),
}

impl View for Tokens {
    type V = Token;

    open spec fn view(&self) -> Token {
        match self {
            Tokens::CHECKPOINT(name) => Token::Checkpoint(name@),
            Tokens::GOTO(name) => Token::Goto(name@),
            Tokens::DATA(tag, data) => Token::Data(data.tagged(*tag)),
            Tokens::INSTRUCTION(op) => Token::Instruction(*op),
            Tokens::REGISTER(reg) => Token::Register(*reg),
            Tokens::COMMENT(text) => Token::Comment(text@),
        }
    }
}

impl Token {
    /// The printed form of a token: its class and what it carries, between
    /// angle brackets. A comment is quoted and has no closing bracket. A
    /// float has no printed form here; the host prints it.
    pub open spec fn text(self) -> Option<Seq<char>> {
        match self {
            Token::Checkpoint(name) => Some("<Checkpoint "@ + name + ">"@),
            Token::Goto(name) => Some("<Goto "@ + name + ">"@),
            Token::Data(value) => match value.text() {
                Some(body) => Some(Self::opening(value.tag()) + body + ">"@),
                None => None,
            },
            Token::Instruction(op) => Some("<Instruction "@ + op.mnemonic() + ">"@),
            Token::Register(reg) => Some("<Register "@ + reg.symbol() + ">"@),
            Token::Comment(text) => Some("<Comment \""@ + text + "\""@),
        }
    }

    /// The opening of the printed form of a literal of the given kind.
    pub open spec fn opening(tag: DataType) -> Seq<char> {
        match tag {
            DataType::Uint32 => "<Uint32 "@,
            DataType::Uint64 => "<Uint64 "@,
            DataType::Int32 => "<Int32 "@,
            DataType::Int64 => "<Int64 "@,
            DataType::Float => "<Float "@,
            DataType::Double => "<Double "@,
            DataType::String => "<String "@,
            DataType::Char => "<Char "@,
            DataType::Register => "<Register "@,
        }
    }
}

impl Tokens {
    fn opening(tag: DataType) -> (r: String)
        ensures
            r@ == Token::opening(tag),
    {
        match tag {
            DataType::Uint32 => "<Uint32 ".to_owned(),
            DataType::Uint64 => "<Uint64 ".to_owned(),
            DataType::Int32 => "<Int32 ".to_owned(),
            DataType::Int64 => "<Int64 ".to_owned(),
            DataType::Float => "<Float ".to_owned(),
            DataType::Double => "<Double ".to_owned(),
            DataType::String => "<String ".to_owned(),
            DataType::Char => "<Char ".to_owned(),
            DataType::Register => "<Register ".to_owned(),
        }
    }

    /// The printed form of the token, or `None` for a float literal, which
    /// the host prints.
    pub fn to_text(&self) -> (r: Option<String>)
        ensures
            r.is_some() == self@.text().is_some(),
            r matches Some(s) ==> Some(s@) == self@.text(),
    {
        match self {
            Tokens::CHECKPOINT(name) => {
                let mut out = "<Checkpoint ".to_owned();
                out.append(name.as_str());
                out.append(">");
                Some(out)
            },
            Tokens::GOTO(name) => {
                let mut out = "<Goto ".to_owned();
                out.append(name.as_str());
                out.append(">");
                Some(out)
            },
            Tokens::DATA(tag, data) => {
                let value = GeneralData { t: *tag, d: data.clone() };
                match value.to_text() {
                    Some(body) => {
                        let mut out = Tokens::opening(*tag);
                        out.append(body.as_str());
                        out.append(">");
                        Some(out)
                    },
                    None => None,
                }
            },
            Tokens::INSTRUCTION(op) => {
                let mut out = "<Instruction ".to_owned();
                out.append(op.name().as_str());
                out.append(">");
                Some(out)
            },
            Tokens::REGISTER(reg) => {
                let mut out = "<Register ".to_owned();
                out.append(reg.name().as_str());
                out.append(">");
                Some(out)
            },
            Tokens::COMMENT(text) => {
                let mut out = "<Comment \"".to_owned();
                out.append(text.as_str());
                out.append("\"");
                Some(out)
            },
        }
    }
}

/// The models of a sequence of classified tokens.
pub open spec fn tokens_of(tokens: Seq<Tokens>) -> Seq<Token> {
    tokens.map_values(|t: Tokens| t@)
}

} // verus!
