//! The classifier: every raw token is given its class.
//!
//! A token is, in this order of precedence, a register name, a mnemonic, the
//! definition of a label (it starts with `:`), a comment (it starts with
//! `;`), a reference to a label (it follows a jump mnemonic and the label is
//! defined somewhere in the program), an integer literal, or a text.

use vstd::prelude::*;
use crate::data_types::{AnyData, DataType, Value};
use crate::flow_structure::OpCode;
use crate::parser::Parser;
use crate::registers::Register;
use crate::stoi::{parse_int, Stoi};
use crate::text::{push_char, texts_of, to_upper, uppercase_of};
use crate::tokens::{tokens_of, Token, Tokens};

verus! {

/// Whether a token defines a label.
pub open spec fn is_label(token: Seq<char>) -> bool {
    token.len() > 0 && token[0] == ':'
}

/// Whether a token is a comment.
pub open spec fn is_comment(token: Seq<char>) -> bool {
    token.len() > 0 && token[0] == ';'
}

/// The label definitions among the raw tokens, in order.
pub open spec fn labels_in(raw: Seq<Seq<char>>) -> Seq<Seq<char>>
    decreases raw.len(),
{
    if raw.len() == 0 {
        Seq::empty()
    } else if is_label(raw.last()) {
        labels_in(raw.drop_last()).push(raw.last())
    } else {
        labels_in(raw.drop_last())
    }
}

/// The class of a token, given its upper-case form, the mnemonic seen last
/// and the label definitions of the program.
pub open spec fn classify(
    token: Seq<char>,
    upper: Seq<char>,
    last: Option<OpCode>,
    labels: Seq<Seq<char>>,
) -> Token {
    if Register::named(upper) is Some {
        Token::Register(Register::named(upper).unwrap())
    } else if OpCode::named(upper) is Some {
        Token::Instruction(OpCode::named(upper).unwrap())
    } else if is_label(token) {
        Token::Checkpoint(token)
    } else if is_comment(token) {
        Token::Comment(token)
    } else if last is Some && last.unwrap().is_jump() && labels.contains(seq![':'] + token) {
        Token::Goto(token)
    } else if parse_int(token) is Some {
        Token::Data(Value::Int64(parse_int(token).unwrap()))
    } else {
        Token::Data(Value::Text(token))
    }
}

/// The mnemonic that a raw token is, if it is one.
pub open spec fn mnemonic_of(token: Seq<char>) -> Option<OpCode> {
    if Register::named(uppercase_of(token)) is Some {
        None
    } else {
        OpCode::named(uppercase_of(token))
    }
}

/// The mnemonic seen last among the raw tokens.
pub open spec fn last_mnemonic(raw: Seq<Seq<char>>) -> Option<OpCode>
    decreases raw.len(),
{
    if raw.len() == 0 {
        None
    } else if mnemonic_of(raw.last()) is Some {
        mnemonic_of(raw.last())
    } else {
        last_mnemonic(raw.drop_last())
    }
}

/// The classes of the raw tokens of a program: each token is classified with
/// the mnemonic seen last before it and the label definitions of the whole
/// program.
pub open spec fn classify_all(raw: Seq<Seq<char>>) -> Seq<Token> {
    Seq::new(
        raw.len(),
        |i: int| classify(raw[i], uppercase_of(raw[i]), last_mnemonic(raw.take(i)), labels_in(raw)),
    )
}

/// The classifier: the raw tokens, the classified tokens so far, the label
/// definitions, and the mnemonic seen last.
pub struct Tokenizer {
    parser: Parser,
    pos: usize,
    tokens: Vec<Tokens>,
    cp: Vec<String>,
    lop: Option<OpCode>,
}

impl Tokenizer {
    /// The raw tokens.
    pub closed spec fn raw(&self) -> Seq<Seq<char>> {
        self.parser.lexed()
    }

    /// The classified tokens so far.
    pub closed spec fn typed(&self) -> Seq<Token> {
        tokens_of(self.tokens@)
    }

    /// Whether the classifier is in order: the tokens classified so far are
    /// the classes of the raw tokens read so far.
    pub closed spec fn wf(&self) -> bool {
        &&& self.pos <= self.raw().len()
        &&& self.typed() == classify_all(self.raw()).take(self.pos as int)
        &&& self.lop == last_mnemonic(self.raw().take(self.pos as int))
        &&& self.pos > 0 ==> texts_of(self.cp@) == labels_in(self.raw())
    }

    /// A classifier for the raw tokens of the given lexer.
    pub fn init(parsed_arg: Parser) -> (r: Tokenizer)
        ensures
            r.wf(),
            r.raw() == parsed_arg.lexed(),
            r.typed() == Seq::<Token>::empty(),
    {
        let r = Tokenizer { parser: parsed_arg, pos: 0, tokens: Vec::new(), cp: Vec::new(), lop: None };
        assert(r.typed() =~= Seq::<Token>::empty());
        assert(r.raw().take(0) =~= Seq::<Seq<char>>::empty());
        assert(classify_all(r.raw()).take(0) =~= Seq::<Token>::empty());
        r
    }

    /// The classified tokens so far.
    pub fn tokens(&self) -> (r: &Vec<Tokens>)
        ensures
            tokens_of(r@) == self.typed(),
    {
        &self.tokens
    }

    /// Whether a token defines a label.
    fn iscp(token: &String) -> (r: bool)
        ensures
            r == is_label(token@),
    {
        let s = token.as_str();
        !s.is_empty() && s.get_char(0) == ':'
    }

    /// Whether a token is a comment.
    fn iscomment(token: &String) -> (r: bool)
        ensures
            r == is_comment(token@),
    {
        let s = token.as_str();
        !s.is_empty() && s.get_char(0) == ';'
    }

    /// Whether a token refers to a label: it follows a jump mnemonic and
    /// names one of the label definitions.
    fn isgoto(tok: &String, last: Option<OpCode>, labels: &Vec<String>) -> (r: bool)
        ensures
            r == (last is Some && last.unwrap().is_jump() && texts_of(labels@).contains(
                seq![':'] + tok@,
            )),
    {
        let follows_jump: bool = match last {
            Some(op) => op.transfers_control(),
            None => false,
        };
        if !follows_jump {
            return false;
        }
        let mut cp_name = String::new();
        push_char(&mut cp_name, ':');
        cp_name.append(tok.as_str());
        assert(cp_name@ =~= seq![':'] + tok@);
        let mut i: usize = 0;
        while i < labels.len()
            invariant
                i <= labels.len(),
                last is Some && last.unwrap().is_jump(),
                cp_name@ == seq![':'] + tok@,
                forall|j: int| 0 <= j < i ==> texts_of(labels@)[j] != cp_name@,
            decreases labels.len() - i,
        {
            if labels[i] == cp_name {
                assert(texts_of(labels@)[i as int] == cp_name@);
                assert(texts_of(labels@).contains(cp_name@));
                return true;
            }
            i += 1;
        }
        false
    }

    /// The class of a token, given its upper-case form, the mnemonic seen
    /// last and the label definitions of the program.
    pub fn classify(tok: &String, upper: &str, last: Option<OpCode>, labels: &Vec<String>) -> (r:
        Tokens)
        ensures
            r@ == classify(tok@, upper@, last, texts_of(labels@)),
    {
        if let Some(reg) = Register::from_upper(upper) {
            Tokens::REGISTER(reg)
        } else if let Some(op) = OpCode::from_upper(upper) {
            Tokens::INSTRUCTION(op)
        } else if Tokenizer::iscp(tok) {
            Tokens::CHECKPOINT(tok.clone())
        } else if Tokenizer::iscomment(tok) {
            Tokens::COMMENT(tok.clone())
        } else if Tokenizer::isgoto(tok, last, labels) {
            Tokens::GOTO(tok.clone())
        } else {
            match Stoi::to_int(tok) {
                Some(value) => Tokens::DATA(DataType::Int64, AnyData::from(value)),
                None => Tokens::DATA(DataType::String, AnyData::from(tok)),
            }
        }
    }

    /// Classifies the next raw token.
    fn next(&mut self) -> (r: Tokens)
        requires
            old(self).pos < old(self).raw().len(),
            old(self).lop == last_mnemonic(old(self).raw().take(old(self).pos as int)),
        ensures
            final(self).raw() == old(self).raw(),
            final(self).tokens == old(self).tokens,
            final(self).cp == old(self).cp,
            final(self).pos == old(self).pos + 1,
            final(self).lop == last_mnemonic(final(self).raw().take(final(self).pos as int)),
            r@ == classify(
                old(self).raw()[old(self).pos as int],
                uppercase_of(old(self).raw()[old(self).pos as int]),
                old(self).lop,
                texts_of(old(self).cp@),
            ),
    {
        let raw: &Vec<String> = self.parser.tokens();
        assert(self.pos < raw.len());
        let tok: &String = &raw[self.pos];
        assert(tok@ == self.raw()[self.pos as int]);
        let upper: String = to_upper(tok.as_str());
        let class: Tokens = Tokenizer::classify(tok, upper.as_str(), self.lop, &self.cp);
        proof {
            let seen = self.raw().take(self.pos as int + 1);
            assert(seen.drop_last() =~= self.raw().take(self.pos as int));
            assert(seen.last() == tok@);
        }
        if let Tokens::INSTRUCTION(op) = class {
            self.lop = Some(op);
        }
        self.pos += 1;
        class
    }

    /// Collects the label definitions.
    fn getcp(&mut self)
        ensures
            final(self).raw() == old(self).raw(),
            final(self).tokens == old(self).tokens,
            final(self).pos == old(self).pos,
            final(self).lop == old(self).lop,
            texts_of(final(self).cp@) == labels_in(final(self).raw()),
    {
        let raw: &Vec<String> = self.parser.tokens();
        let mut found: Vec<String> = Vec::new();
        let mut i: usize = 0;
        assert(self.raw().take(0) =~= Seq::<Seq<char>>::empty());
        assert(texts_of(found@) =~= Seq::<Seq<char>>::empty());
        while i < raw.len()
            invariant
                i <= raw.len(),
                texts_of(raw@) == self.raw(),
                texts_of(found@) == labels_in(self.raw().take(i as int)),
            decreases raw.len() - i,
        {
            let ghost seen = self.raw().take(i as int + 1);
            assert(seen.drop_last() =~= self.raw().take(i as int));
            assert(seen.last() == raw@[i as int]@);
            if Tokenizer::iscp(&raw[i]) {
                let ghost before = found@;
                found.push(raw[i].clone());
                assert(texts_of(found@) =~= texts_of(before).push(raw@[i as int]@));
            }
            i += 1;
        }
        assert(self.raw().take(i as int) =~= self.raw());
        self.cp = found;
    }

    /// Classifies the raw tokens that are not classified yet.
    pub fn tokenize(&mut self) -> (r: &Vec<Tokens>)
        requires
            old(self).wf(),
        ensures
            final(self).wf(),
            final(self).raw() == old(self).raw(),
            final(self).typed() == classify_all(old(self).raw()),
            tokens_of(r@) == final(self).typed(),
    {
        self.getcp();
        let ghost raw = self.raw();
        while self.pos < self.parser.tokens().len()
            invariant
                self.raw() == raw,
                self.pos <= raw.len(),
                self.typed() == classify_all(raw).take(self.pos as int),
                self.lop == last_mnemonic(raw.take(self.pos as int)),
                texts_of(self.cp@) == labels_in(raw),
            decreases raw.len() - self.pos,
        {
            let ghost at = self.pos as int;
            let ghost before = self.typed();
            let tok = self.next();
            self.tokens.push(tok);
            assert(self.typed() =~= before.push(tok@));
            assert(classify_all(raw).take(at + 1) =~= classify_all(raw).take(at).push(
                classify_all(raw)[at],
            ));
        }
        assert(classify_all(raw).take(self.pos as int) =~= classify_all(raw));
        &self.tokens
    }
}

} // verus!
