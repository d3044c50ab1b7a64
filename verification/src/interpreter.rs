//! The assembler: classified tokens become a flat vector of instructions.
//!
//! A first pass gives every label the index of the instruction that follows
//! its definition. A second pass collects operands and emits an instruction
//! whenever the next mnemonic, or the end of the program, closes the
//! operands of the one before.

use std::collections::VecDeque;
use vstd::prelude::*;
use crate::data_types::{AnyData, DataType, GeneralData, Value};
use crate::flow_structure::{instrs_of, values_of, FlowStructure, Instr, OpCode};
use crate::text::{chars_of, text_of};
use crate::tokens::{tokens_of, Token, Tokens};

verus! {

/// The number of mnemonics among the tokens.
pub open spec fn instruction_count(tokens: Seq<Token>) -> nat
    decreases tokens.len(),
{
    if tokens.len() == 0 {
        0
    } else if tokens.last() is Instruction {
        instruction_count(tokens.drop_last()) + 1
    } else {
        instruction_count(tokens.drop_last())
    }
}

/// The name of a label: the text of its definition without the first
/// character, the colon.
pub open spec fn label_name(definition: Seq<char>) -> Seq<char> {
    if definition.len() == 0 {
        definition
    } else {
        definition.skip(1)
    }
}

/// The labels of a program: every name that is defined, with the number of
/// mnemonics before its definition, which is the index of the instruction
/// that follows it. Of two definitions of one name the later counts.
pub open spec fn label_map(tokens: Seq<Token>) -> Map<Seq<char>, int>
    decreases tokens.len(),
{
    if tokens.len() == 0 {
        Map::empty()
    } else {
        let before = label_map(tokens.drop_last());
        match tokens.last() {
            Token::Checkpoint(definition) => before.insert(
                label_name(definition),
                instruction_count(tokens.drop_last()) as int,
            ),
            _ => before,
        }
    }
}

/// The operand that a token stands for, if it stands for one: a literal for
/// itself, a register for its name, a reference to a defined label for the
/// index of the label. A reference to an undefined label stands for nothing.
pub open spec fn operand_of(token: Token, labels: Map<Seq<char>, int>) -> Option<Value> {
    match token {
        Token::Data(value) => Some(value),
        Token::Register(reg) => Some(Value::Register(reg)),
        Token::Goto(name) => if labels.contains_key(name) {
            Some(Value::Int64(labels[name] as i64))
        } else {
            None
        },
        _ => None,
    }
}

/// The operands that a run of tokens stands for, in the order in which they
/// are written.
pub open spec fn operands_of(tokens: Seq<Token>, labels: Map<Seq<char>, int>) -> Seq<Value>
    decreases tokens.len(),
{
    if tokens.len() == 0 {
        Seq::empty()
    } else {
        match operand_of(tokens.last(), labels) {
            Some(value) => operands_of(tokens.drop_last(), labels).push(value),
            None => operands_of(tokens.drop_last(), labels),
        }
    }
}

/// The assembler between two tokens: the instructions emitted so far, the
/// mnemonic whose operands are being collected, and the operands collected
/// since the last instruction was emitted.
pub struct Assembly {
    pub code: Seq<Instr>,
    pub pending: Option<OpCode>,
    pub queue: Seq<Value>,
}

impl Assembly {
    /// The assembler after the given token.
    pub open spec fn after(self, token: Token, labels: Map<Seq<char>, int>) -> Assembly {
        match token {
            Token::Instruction(op) => match self.pending {
                Some(pending) => Assembly {
                    code: self.code.push(Instr { op: pending, args: self.queue }),
                    pending: Some(op),
                    queue: Seq::empty(),
                },
                None => Assembly { pending: Some(op), ..self },
            },
            _ => match operand_of(token, labels) {
                Some(value) => Assembly { queue: self.queue.push(value), ..self },
                None => self,
            },
        }
    }

    /// The instructions at the end of the program: the pending mnemonic, if
    /// there is one, is emitted with the operands collected for it.
    pub open spec fn finish(self) -> Seq<Instr> {
        match self.pending {
            Some(pending) => self.code.push(Instr { op: pending, args: self.queue }),
            None => self.code,
        }
    }
}

/// The assembler after the given tokens.
pub open spec fn assembly(tokens: Seq<Token>, labels: Map<Seq<char>, int>) -> Assembly
    decreases tokens.len(),
{
    if tokens.len() == 0 {
        Assembly { code: Seq::empty(), pending: None, queue: Seq::empty() }
    } else {
        assembly(tokens.drop_last(), labels).after(tokens.last(), labels)
    }
}

/// The instructions of a program.
pub open spec fn assemble(tokens: Seq<Token>) -> Seq<Instr> {
    assembly(tokens, label_map(tokens)).finish()
}

/// The labels that a table of entries holds, a later entry counting over an
/// earlier one of the same name.
pub open spec fn table_of(entries: Seq<(String, usize)>) -> Map<Seq<char>, int>
    decreases entries.len(),
{
    if entries.len() == 0 {
        Map::empty()
    } else {
        table_of(entries.drop_last()).insert(entries.last().0@, entries.last().1 as int)
    }
}

/// Every mnemonic gives one instruction.
pub proof fn lemma_assembly_length(tokens: Seq<Token>, labels: Map<Seq<char>, int>)
    ensures
        assembly(tokens, labels).finish().len() == instruction_count(tokens),
        assembly(tokens, labels).pending is None ==> instruction_count(tokens) == 0,
    decreases tokens.len(),
{
    if tokens.len() > 0 {
        lemma_assembly_length(tokens.drop_last(), labels);
    }
}

/// The mnemonic at position `at` gives the instruction whose index is the
/// number of mnemonics before it.
pub proof fn lemma_assembly_opcode(tokens: Seq<Token>, labels: Map<Seq<char>, int>, at: int)
    requires
        0 <= at < tokens.len(),
        tokens[at] is Instruction,
    ensures
        instruction_count(tokens.take(at)) < assembly(tokens, labels).finish().len(),
        assembly(tokens, labels).finish()[instruction_count(tokens.take(at)) as int].op
            == tokens[at]->Instruction_0,
    decreases tokens.len(),
{
    let before = tokens.drop_last();
    lemma_assembly_length(before, labels);
    lemma_assembly_length(tokens, labels);
    if at == tokens.len() - 1 {
        assert(tokens.take(at) =~= before);
    } else {
        assert(tokens.take(at) =~= before.take(at));
        lemma_assembly_opcode(before, labels, at);
    }
}

/// Counting mnemonics up to a position and from there on.
pub proof fn lemma_count_split(tokens: Seq<Token>, at: int)
    requires
        0 <= at <= tokens.len(),
    ensures
        instruction_count(tokens) == instruction_count(tokens.take(at)) + instruction_count(
            tokens.skip(at),
        ),
        instruction_count(tokens) <= tokens.len(),
    decreases tokens.len(),
{
    if tokens.len() == 0 {
        assert(tokens.take(at) =~= tokens);
        assert(tokens.skip(at) =~= tokens);
    } else if at == tokens.len() {
        assert(tokens.take(at) =~= tokens);
        assert(tokens.skip(at) =~= Seq::<Token>::empty());
        lemma_count_split(tokens.drop_last(), at - 1);
    } else {
        lemma_count_split(tokens.drop_last(), at);
        assert(tokens.drop_last().take(at) =~= tokens.take(at));
        assert(tokens.drop_last().skip(at) =~= tokens.skip(at).drop_last());
        assert(tokens.skip(at).last() == tokens.last());
    }
}

/// The last definition of a label gives it the number of mnemonics before
/// the definition: the index of the instruction that the next mnemonic
/// gives.
pub proof fn lemma_label_marks_next_instruction(tokens: Seq<Token>, at: int)
    requires
        0 <= at < tokens.len(),
        tokens[at] is Checkpoint,
        forall|later: int|
            at < later < tokens.len() && tokens[later] is Checkpoint ==> label_name(
                #[trigger] tokens[later]->Checkpoint_0,
            ) != label_name(tokens[at]->Checkpoint_0),
    ensures
        label_map(tokens).contains_key(label_name(tokens[at]->Checkpoint_0)),
        label_map(tokens)[label_name(tokens[at]->Checkpoint_0)] == instruction_count(
            tokens.take(at),
        ),
    decreases tokens.len(),
{
    let before = tokens.drop_last();
    if at == tokens.len() - 1 {
        assert(tokens.take(at) =~= before);
    } else {
        assert(tokens.take(at) =~= before.take(at));
        assert(before[at] == tokens[at]);
        assert forall|later: int|
            at < later < before.len() && before[later] is Checkpoint implies label_name(
            #[trigger] before[later]->Checkpoint_0,
        ) != label_name(before[at]->Checkpoint_0) by {
            assert(before[later] == tokens[later]);
        }
        lemma_label_marks_next_instruction(before, at);
        assert(tokens.last() == tokens[tokens.len() - 1]);
    }
}

/// Tokens among which no mnemonic is counted hold no mnemonic.
proof fn lemma_count_zero(tokens: Seq<Token>)
    requires
        instruction_count(tokens) == 0,
    ensures
        forall|i: int| 0 <= i < tokens.len() ==> !(#[trigger] tokens[i] is Instruction),
    decreases tokens.len(),
{
    if tokens.len() > 0 {
        let before = tokens.drop_last();
        lemma_count_zero(before);
        assert forall|i: int| 0 <= i < tokens.len() implies !(#[trigger] tokens[i] is Instruction) by {
            if i < before.len() {
                assert(before[i] == tokens[i]);
            } else {
                assert(tokens[i] == tokens.last());
            }
        }
    }
}

/// Tokens behind which no mnemonic follows only add their operands to the
/// queue.
proof fn lemma_operands_queue_up(tokens: Seq<Token>, labels: Map<Seq<char>, int>, from: int)
    requires
        0 <= from <= tokens.len(),
        forall|i: int| from <= i < tokens.len() ==> !(#[trigger] tokens[i] is Instruction),
    ensures
        assembly(tokens, labels) == (Assembly {
            queue: assembly(tokens.take(from), labels).queue + operands_of(
                tokens.skip(from),
                labels,
            ),
            ..assembly(tokens.take(from), labels)
        }),
    decreases tokens.len() - from,
{
    let start = assembly(tokens.take(from), labels);
    if from == tokens.len() {
        assert(tokens.take(from) =~= tokens);
        assert(tokens.skip(from) =~= Seq::<Token>::empty());
        assert(start.queue + Seq::<Value>::empty() =~= start.queue);
    } else {
        let before = tokens.drop_last();
        assert(before.take(from) =~= tokens.take(from));
        assert(before.skip(from) =~= tokens.skip(from).drop_last());
        assert(tokens.skip(from).last() == tokens.last());
        assert(tokens.last() == tokens[tokens.len() - 1]);
        assert forall|i: int| from <= i < before.len() implies !(#[trigger] before[i] is Instruction) by {
            assert(before[i] == tokens[i]);
        }
        lemma_operands_queue_up(before, labels, from);
        match operand_of(tokens.last(), labels) {
            Some(value) => {
                assert((start.queue + operands_of(before.skip(from), labels)).push(value)
                    =~= start.queue + operands_of(before.skip(from), labels).push(value));
            },
            None => {},
        }
    }
}

/// An instruction that is emitted stays as it is.
proof fn lemma_code_grows(tokens: Seq<Token>, labels: Map<Seq<char>, int>, upto: int, k: int)
    requires
        0 <= upto <= tokens.len(),
        0 <= k < assembly(tokens.take(upto), labels).code.len(),
    ensures
        k < assembly(tokens, labels).code.len(),
        assembly(tokens, labels).code[k] == assembly(tokens.take(upto), labels).code[k],
    decreases tokens.len() - upto,
{
    if upto == tokens.len() {
        assert(tokens.take(upto) =~= tokens);
    } else {
        let before = tokens.drop_last();
        assert(before.take(upto) =~= tokens.take(upto));
        lemma_code_grows(before, labels, upto, k);
    }
}

/// The instruction that a mnemonic gives: its index is the number of
/// mnemonics before it, its operation is the one named, and its operands are
/// those written between it and the next mnemonic, or the end of the program,
/// in the order in which they are written. The operands written before the
/// first mnemonic are put in front of those of the first instruction.
pub proof fn lemma_assembly_instruction(
    tokens: Seq<Token>,
    labels: Map<Seq<char>, int>,
    at: int,
    next: int,
)
    requires
        0 <= at < next <= tokens.len(),
        tokens[at] is Instruction,
        next < tokens.len() ==> tokens[next] is Instruction,
        forall|i: int| at < i < next ==> !(#[trigger] tokens[i] is Instruction),
    ensures
        ({
            let index = instruction_count(tokens.take(at)) as int;
            let leading = if index == 0 {
                operands_of(tokens.take(at), labels)
            } else {
                Seq::empty()
            };
            &&& index < assembly(tokens, labels).finish().len()
            &&& assembly(tokens, labels).finish()[index] == (Instr {
                op: tokens[at]->Instruction_0,
                args: leading + operands_of(tokens.subrange(at + 1, next), labels),
            })
        }),
{
    let index = instruction_count(tokens.take(at)) as int;
    let before = assembly(tokens.take(at), labels);
    let opened = assembly(tokens.take(at + 1), labels);
    let closed = assembly(tokens.take(next), labels);
    let written = operands_of(tokens.subrange(at + 1, next), labels);
    lemma_assembly_length(tokens.take(at), labels);
    assert(tokens.take(at + 1).drop_last() =~= tokens.take(at));
    assert(tokens.take(at + 1).last() == tokens[at]);
    if index == 0 {
        lemma_count_zero(tokens.take(at));
        lemma_operands_queue_up(tokens.take(at), labels, 0);
        assert(tokens.take(at).take(0) =~= Seq::<Token>::empty());
        assert(tokens.take(at).skip(0) =~= tokens.take(at));
        assert(Seq::<Value>::empty() + operands_of(tokens.take(at), labels) =~= operands_of(
            tokens.take(at),
            labels,
        ));
    }
    let leading = if index == 0 {
        operands_of(tokens.take(at), labels)
    } else {
        Seq::empty()
    };
    assert(opened.code == before.finish());
    assert(opened.queue == leading);
    assert forall|i: int| at + 1 <= i < tokens.take(next).len() implies !(
    #[trigger] tokens.take(next)[i] is Instruction) by {
        assert(tokens.take(next)[i] == tokens[i]);
    }
    lemma_operands_queue_up(tokens.take(next), labels, at + 1);
    assert(tokens.take(next).take(at + 1) =~= tokens.take(at + 1));
    assert(tokens.take(next).skip(at + 1) =~= tokens.subrange(at + 1, next));
    assert(closed.code == opened.code);
    assert(closed.pending == opened.pending);
    assert(closed.queue == leading + written);
    if next == tokens.len() {
        assert(tokens.take(next) =~= tokens);
    } else {
        assert(tokens.take(next + 1).drop_last() =~= tokens.take(next));
        assert(tokens.take(next + 1).last() == tokens[next]);
        lemma_code_grows(tokens, labels, next + 1, index);
    }
}

/// A program with a label and a jump to it that is written as the mnemonic
/// `JMP` and a reference to the label: when the jump is executed, the
/// machine goes on with the instruction that the first mnemonic behind the
/// definition of the label gives.
pub proof fn lemma_label_round_trip(
    tokens: Seq<Token>,
    label: int,
    mnemonic: int,
    jump: int,
    m: crate::semantics::Machine,
)
    requires
        tokens.len() <= i64::MAX,
        0 <= label < mnemonic < tokens.len(),
        tokens[label] is Checkpoint,
        forall|later: int|
            label < later < tokens.len() && tokens[later] is Checkpoint ==> label_name(
                #[trigger] tokens[later]->Checkpoint_0,
            ) != label_name(tokens[label]->Checkpoint_0),
        tokens[mnemonic] is Instruction,
        forall|between: int|
            label < between < mnemonic ==> !(#[trigger] tokens[between] is Instruction),
        0 <= jump < tokens.len() - 1,
        tokens[jump] == Token::Instruction(OpCode::JMP),
        tokens[jump + 1] == Token::Goto(label_name(tokens[label]->Checkpoint_0)),
        jump + 2 < tokens.len() ==> tokens[jump + 2] is Instruction,
        instruction_count(tokens.take(jump)) == 0 ==> operands_of(
            tokens.take(jump),
            label_map(tokens),
        ).len() == 0,
        m.pc == instruction_count(tokens.take(jump)),
    ensures
        ({
            let target = instruction_count(tokens.take(mnemonic)) as int;
            &&& target < assemble(tokens).len()
            &&& assemble(tokens)[target].op == tokens[mnemonic]->Instruction_0
            &&& crate::semantics::step(m, assemble(tokens)) == Ok::<
                (crate::semantics::Machine, crate::flow_structure::ActionView),
                crate::flow_structure::ExecError,
            >((m.at(target), crate::flow_structure::ActionView::Continue))
        }),
{
    let labels = label_map(tokens);
    let flow = assemble(tokens);
    let name = label_name(tokens[label]->Checkpoint_0);
    lemma_label_marks_next_instruction(tokens, label);
    lemma_assembly_opcode(tokens, labels, mnemonic);
    lemma_assembly_length(tokens, labels);
    lemma_count_split(tokens, mnemonic);
    lemma_count_split(tokens.take(mnemonic), label);
    assert(tokens.take(mnemonic).take(label) =~= tokens.take(label));
    lemma_no_mnemonic_counts_nothing(tokens.take(mnemonic).skip(label));
    let target = instruction_count(tokens.take(mnemonic)) as int;
    assert(labels[name] == target);

    lemma_assembly_instruction(tokens, labels, jump, jump + 2);
    lemma_count_split(tokens, jump);
    let written = tokens.subrange(jump + 1, jump + 2);
    assert(written.drop_last() =~= Seq::<Token>::empty());
    assert(written.last() == tokens[jump + 1]);
    assert(operands_of(written.drop_last(), labels) =~= Seq::<Value>::empty());
    assert(operands_of(written, labels) =~= seq![Value::Int64(target as i64)]);
    assert(flow[m.pc].args =~= seq![Value::Int64(target as i64)]);
    crate::semantics::lemma_taken_jump_lands_on_target(m, flow, target as i64);
}

/// Tokens without a mnemonic, apart from the first one, give no instruction
/// beyond that of the first.
proof fn lemma_no_mnemonic_counts_nothing(tokens: Seq<Token>)
    requires
        tokens.len() > 0,
        !(tokens[0] is Instruction),
        forall|i: int| 0 < i < tokens.len() ==> !(#[trigger] tokens[i] is Instruction),
    ensures
        instruction_count(tokens) == 0,
    decreases tokens.len(),
{
    if tokens.len() > 1 {
        let before = tokens.drop_last();
        assert(before[0] == tokens[0]);
        assert forall|i: int| 0 < i < before.len() implies !(#[trigger] before[i] is Instruction) by {
            assert(before[i] == tokens[i]);
        }
        lemma_no_mnemonic_counts_nothing(before);
        assert(tokens.last() == tokens[tokens.len() - 1]);
    } else {
        assert(tokens.drop_last().len() == 0);
        assert(instruction_count(tokens.drop_last()) == 0);
        assert(tokens.last() == tokens[0]);
    }
}

/// The assembler.
pub struct Interpreter {}

impl Interpreter {
    /// The name of a label, from the text of its definition.
    fn name_of(definition: &String) -> (r: String)
        ensures
            r@ == label_name(definition@),
    {
        let chars = chars_of(definition.as_str());
        if chars.len() == 0 {
            let r = text_of(&chars, 0, 0);
            assert(r@ =~= definition@);
            r
        } else {
            text_of(&chars, 1, chars.len())
        }
    }

    /// The labels of a program, in the order of their definitions.
    fn cp_pos(tokens: &Vec<Tokens>) -> (r: Vec<(String, usize)>)
        ensures
            table_of(r@) == label_map(tokens_of(tokens@)),
    {
        let ghost all = tokens_of(tokens@);
        let mut i: usize = 0;
        let mut cp: Vec<(String, usize)> = Vec::new();
        let mut at: usize = 0;
        assert(all.take(0) =~= Seq::<Token>::empty());
        while at < tokens.len()
            invariant
                at <= tokens.len(),
                all == tokens_of(tokens@),
                i == instruction_count(all.take(at as int)),
                i <= at,
                table_of(cp@) == label_map(all.take(at as int)),
            decreases tokens.len() - at,
        {
            let ghost seen = all.take(at as int + 1);
            assert(seen.drop_last() =~= all.take(at as int));
            assert(seen.last() == tokens@[at as int]@);
            match &tokens[at] {
                Tokens::CHECKPOINT(cpo) => {
                    let ghost before = cp@;
                    cp.push((Interpreter::name_of(cpo), i));
                    assert(cp@.drop_last() =~= before);
                },
                Tokens::INSTRUCTION(_) => {
                    i += 1;
                },
                _ => {},
            }
            at += 1;
        }
        assert(all.take(at as int) =~= all);
        cp
    }

    /// The index of a label, if the label is defined.
    fn get(labels: &Vec<(String, usize)>, name: &String) -> (r: Option<usize>)
        ensures
            r.is_some() == table_of(labels@).contains_key(name@),
            r matches Some(i) ==> table_of(labels@)[name@] == i,
    {
        let mut k: usize = labels.len();
        assert(labels@.take(k as int) =~= labels@);
        while k > 0
            invariant
                k <= labels.len(),
                table_of(labels@).contains_key(name@) == table_of(
                    labels@.take(k as int),
                ).contains_key(name@),
                table_of(labels@).contains_key(name@) ==> table_of(labels@)[name@] == table_of(
                    labels@.take(k as int),
                )[name@],
            decreases k,
        {
            let ghost upto = labels@.take(k as int);
            assert(upto.drop_last() =~= labels@.take(k as int - 1));
            assert(upto.last() == labels@[k as int - 1]);
            k -= 1;
            if labels[k].0 == *name {
                return Some(labels[k].1);
            }
        }
        assert(labels@.take(0) =~= Seq::<(String, usize)>::empty());
        None
    }

    /// Empties the queue of operands into a vector, the oldest first.
    fn drain(args: &mut VecDeque<GeneralData>) -> (r: Vec<GeneralData>)
        ensures
            r@ == old(args)@,
            final(args)@ == Seq::<GeneralData>::empty(),
    {
        let mut vec: Vec<GeneralData> = Vec::with_capacity(args.len());
        while args.len() > 0
            invariant
                vec@ + args@ == old(args)@,
            decreases args.len(),
        {
            let ghost rest = args@;
            let ghost done = vec@;
            match args.pop_front() {
                Some(value) => {
                    vec.push(value);
                    assert(vec@ + args@ =~= done + rest);
                },
                None => {},
            }
        }
        assert(vec@ + args@ =~= vec@);
        assert(args@ =~= Seq::<GeneralData>::empty());
        vec
    }

    /// The value that a literal token carries, in a record of its own.
    fn literal(t: DataType, d: &AnyData) -> (r: GeneralData)
        ensures
            r@ == d.tagged(t),
    {
        match t {
            DataType::Uint32 => GeneralData { t: DataType::Uint32, d: AnyData::from(d.uint32) },
            DataType::Uint64 => GeneralData { t: DataType::Uint64, d: AnyData::from(d.uint64) },
            DataType::Int32 => GeneralData { t: DataType::Int32, d: AnyData::from(d.int32) },
            DataType::Int64 => GeneralData { t: DataType::Int64, d: AnyData::from(d.int64) },
            DataType::Float => GeneralData {
                t: DataType::Float,
                d: AnyData::from_float_bits(d.float),
            },
            DataType::Double => GeneralData {
                t: DataType::Double,
                d: AnyData::from_double_bits(d.double),
            },
            DataType::String => GeneralData { t: DataType::String, d: AnyData::from(&d.string) },
            DataType::Char => GeneralData { t: DataType::Char, d: AnyData::from(d.char) },
            DataType::Register => GeneralData {
                t: DataType::Register,
                d: AnyData::from(d.register),
            },
        }
    }

    /// Assembles a program: every mnemonic gives one instruction, with the
    /// operands written behind it, up to the next mnemonic, in the order in
    /// which they were written; operands before the first mnemonic go to the
    /// first instruction. References to labels become the index of the
    /// instruction that follows the definition of the label.
    pub fn interpret(tokens: &Vec<Tokens>) -> (r: Vec<FlowStructure>)
        ensures
            instrs_of(r@) == assemble(tokens_of(tokens@)),
    {
        let cp = Interpreter::cp_pos(tokens);
        let ghost all = tokens_of(tokens@);
        let ghost labels = label_map(all);
        let mut code: Vec<FlowStructure> = Vec::new();
        let mut args: VecDeque<GeneralData> = VecDeque::new();
        let mut queued_istr: Option<OpCode> = None;
        let mut at: usize = 0;
        assert(all.take(0) =~= Seq::<Token>::empty());
        assert(instrs_of(code@) =~= Seq::<Instr>::empty());
        assert(values_of(args@) =~= Seq::<Value>::empty());
        while at < tokens.len()
            invariant
                at <= tokens.len(),
                all == tokens_of(tokens@),
                labels == label_map(all),
                table_of(cp@) == labels,
                instrs_of(code@) == assembly(all.take(at as int), labels).code,
                queued_istr == assembly(all.take(at as int), labels).pending,
                values_of(args@) == assembly(all.take(at as int), labels).queue,
            decreases tokens.len() - at,
        {
            let ghost seen = all.take(at as int + 1);
            let ghost before = assembly(all.take(at as int), labels);
            assert(seen.drop_last() =~= all.take(at as int));
            assert(seen.last() == tokens@[at as int]@);
            assert(assembly(seen, labels) == before.after(tokens@[at as int]@, labels));
            let ghost queue = args@;
            match &tokens[at] {
                Tokens::CHECKPOINT(_) => {},
                Tokens::COMMENT(_) => {},
                Tokens::GOTO(c_pos) => match Interpreter::get(&cp, c_pos) {
                    Some(i) => {
                        args.push_back(
                            GeneralData {
                                t: DataType::Int64,
                                d: AnyData::from(#[verifier::truncate] (i as i64)),
                            },
                        );
                        assert(values_of(args@) =~= values_of(queue).push(
                            Value::Int64(labels[c_pos@] as i64),
                        ));
                    },
                    None => {},
                },
                Tokens::DATA(t, d) => {
                    args.push_back(Interpreter::literal(*t, d));
                    assert(values_of(args@) =~= values_of(queue).push(d.tagged(*t)));
                },
                Tokens::REGISTER(reg) => {
                    args.push_back(GeneralData { t: DataType::Register, d: AnyData::from(*reg) });
                    assert(values_of(args@) =~= values_of(queue).push(Value::Register(*reg)));
                },
                Tokens::INSTRUCTION(istr) => {
                    match queued_istr {
                        Some(pending) => {
                            let ghost emitted = code@;
                            let vec: Vec<GeneralData> = Interpreter::drain(&mut args);
                            code.push(FlowStructure { op_code: pending, arguments: vec });
                            assert(instrs_of(code@) =~= instrs_of(emitted).push(
                                Instr { op: pending, args: values_of(queue) },
                            ));
                            assert(values_of(args@) =~= Seq::<Value>::empty());
                        },
                        None => {},
                    }
                    queued_istr = Some(*istr);
                },
            }
            at += 1;
        }
        assert(all.take(at as int) =~= all);
        match queued_istr {
            Some(pending) => {
                let ghost emitted = code@;
                let ghost queue = args@;
                let vec: Vec<GeneralData> = Interpreter::drain(&mut args);
                code.push(FlowStructure { op_code: pending, arguments: vec });
                assert(instrs_of(code@) =~= instrs_of(emitted).push(
                    Instr { op: pending, args: values_of(queue) },
                ));
            },
            None => {},
        }
        code
    }
}

} // verus!
