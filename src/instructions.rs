//! The instruction set, and the decoding of one line's words into an instruction.
use vstd::prelude::*;

use crate::text::{chars_of, numeral_value, parse_numeral, text_of};

verus! {

/// Name of a variable.
pub type Ident = String;

#[derive(Debug, PartialEq, Clone)]
pub enum Instruction {
    LoadVal(u128),
    WriteVar(Ident),
    ReadVar(Ident),
    Add,
    Sub,
    Mul,
    RetVal,
    Jump,
    JumpLessThan,
    JumpGreaterThan,
    JumpEqual,
    Spawn,
    SendChannel,
    RecvChannel,
    Log,
}

/// An instruction with its variable name seen as a sequence of characters.
pub enum Op {
    LoadVal(u128),
    WriteVar(Seq<char>),
    ReadVar(Seq<char>),
    Add,
    Sub,
    Mul,
    RetVal,
    Jump,
    JumpLessThan,
    JumpGreaterThan,
    JumpEqual,
    Spawn,
    SendChannel,
    RecvChannel,
    Log,
}

impl View for Instruction {
    type V = Op;

    open spec fn view(&self) -> Op {
        match self {
            Instruction::LoadVal(n) => Op::LoadVal(*n),
            Instruction::WriteVar(name) => Op::WriteVar(name@),
            Instruction::ReadVar(name) => Op::ReadVar(name@),
            Instruction::Add => Op::Add,
            Instruction::Sub => Op::Sub,
            Instruction::Mul => Op::Mul,
            Instruction::RetVal => Op::RetVal,
            Instruction::Jump => Op::Jump,
            Instruction::JumpLessThan => Op::JumpLessThan,
            Instruction::JumpGreaterThan => Op::JumpGreaterThan,
            Instruction::JumpEqual => Op::JumpEqual,
            Instruction::Spawn => Op::Spawn,
            Instruction::SendChannel => Op::SendChannel,
            Instruction::RecvChannel => Op::RecvChannel,
            Instruction::Log => Op::Log,
        }
    }
}

/// Why a line does not decode.
#[derive(Debug, PartialEq, Eq, Clone, Copy)]
pub enum DecodeError {
    EmptyInstruction,
    EmptyLoadValOperand,
    EmptyWriteVarOperand,
    EmptyReadVarOperand,
    BadLoadValOperand,
    UnknownInstruction,
}

impl DecodeError {
    pub open spec fn text(&self) -> Seq<char> {
        match self {
            DecodeError::EmptyInstruction => "Empty instruction"@,
            DecodeError::EmptyLoadValOperand => "Empty operand for LOAD_VAL"@,
            DecodeError::EmptyWriteVarOperand => "Empty operand for WRITE_VAR"@,
            DecodeError::EmptyReadVarOperand => "Empty operand for READ_VAR"@,
            DecodeError::BadLoadValOperand => "Parsing of operand of LOAD_VAL"@,
            DecodeError::UnknownInstruction => "Unknown instruction"@,
        }
    }

    /// The reason, in words.
    pub fn message(&self) -> (r: &'static str)
        ensures
            r@ == self.text(),
    {
        match self {
            DecodeError::EmptyInstruction => "Empty instruction",
            DecodeError::EmptyLoadValOperand => "Empty operand for LOAD_VAL",
            DecodeError::EmptyWriteVarOperand => "Empty operand for WRITE_VAR",
            DecodeError::EmptyReadVarOperand => "Empty operand for READ_VAR",
            DecodeError::BadLoadValOperand => "Parsing of operand of LOAD_VAL",
            DecodeError::UnknownInstruction => "Unknown instruction",
        }
    }
}

/// The instruction without operand that a mnemonic names, if it names one.
pub open spec fn bare_op(m: Seq<char>) -> Option<Op> {
    if m == "ADD"@ {
        Some(Op::Add)
    } else if m == "SUB"@ {
        Some(Op::Sub)
    } else if m == "MULTIPLY"@ {
        Some(Op::Mul)
    } else if m == "RETURN_VALUE"@ {
        Some(Op::RetVal)
    } else if m == "JUMP"@ {
        Some(Op::Jump)
    } else if m == "JUMP_LESS_THAN"@ {
        Some(Op::JumpLessThan)
    } else if m == "JUMP_GREATER_THAN"@ {
        Some(Op::JumpGreaterThan)
    } else if m == "JUMP_EQUAL"@ {
        Some(Op::JumpEqual)
    } else if m == "SPAWN"@ {
        Some(Op::Spawn)
    } else if m == "SEND_CHANNEL"@ {
        Some(Op::SendChannel)
    } else if m == "RECV_CHANNEL"@ {
        Some(Op::RecvChannel)
    } else if m == "LOG"@ {
        Some(Op::Log)
    } else {
        None
    }
}

/// The instruction that the words of a line spell: a mnemonic, then its operand
/// where it takes one. Words after those are not read.
pub open spec fn decode(ws: Seq<Seq<char>>) -> Result<Op, DecodeError> {
    if ws.len() == 0 {
        Err(DecodeError::EmptyInstruction)
    } else if ws[0] == "LOAD_VAL"@ {
        if ws.len() < 2 {
            Err(DecodeError::EmptyLoadValOperand)
        } else {
            match numeral_value(ws[1]) {
                Some(n) => Ok(Op::LoadVal(n)),
                None => Err(DecodeError::BadLoadValOperand),
            }
        }
    } else if ws[0] == "WRITE_VAR"@ {
        if ws.len() < 2 {
            Err(DecodeError::EmptyWriteVarOperand)
        } else {
            Ok(Op::WriteVar(ws[1]))
        }
    } else if ws[0] == "READ_VAR"@ {
        if ws.len() < 2 {
            Err(DecodeError::EmptyReadVarOperand)
        } else {
            Ok(Op::ReadVar(ws[1]))
        }
    } else {
        match bare_op(ws[0]) {
            Some(op) => Ok(op),
            None => Err(DecodeError::UnknownInstruction),
        }
    }
}

/// The words of one source line, in order.
pub struct IteratorWrapper(pub Vec<Vec<char>>);

impl View for IteratorWrapper {
    type V = Seq<Seq<char>>;

    open spec fn view(&self) -> Seq<Seq<char>> {
        self.0@.map_values(|w: Vec<char>| w@)
    }
}

/// Whether the word `w` is the text `lit`.
fn is_word(w: &Vec<char>, lit: &str) -> (r: bool)
    ensures
        r == (w@ == lit@),
{
    let l = chars_of(lit);
    if w.len() != l.len() {
        return false;
    }
    let mut i: usize = 0;
    while i < w.len()
        invariant
            w@.len() == l@.len(),
            l@ == lit@,
            i <= w.len(),
            w@.take(i as int) =~= l@.take(i as int),
        decreases w.len() - i,
    {
        if w[i] != l[i] {
            return false;
        }
        assert(w@.take(i + 1) =~= l@.take(i + 1));
        i = i + 1;
    }
    assert(w@ =~= w@.take(i as int));
    assert(l@ =~= l@.take(i as int));
    true
}

fn bare_instruction(m: &Vec<char>) -> (r: Option<Instruction>)
    ensures
        match bare_op(m@) {
            Some(op) => r is Some && r->0@ == op,
            None => r is None,
        },
{
    if is_word(m, "ADD") {
        Some(Instruction::Add)
    } else if is_word(m, "SUB") {
        Some(Instruction::Sub)
    } else if is_word(m, "MULTIPLY") {
        Some(Instruction::Mul)
    } else if is_word(m, "RETURN_VALUE") {
        Some(Instruction::RetVal)
    } else if is_word(m, "JUMP") {
        Some(Instruction::Jump)
    } else if is_word(m, "JUMP_LESS_THAN") {
        Some(Instruction::JumpLessThan)
    } else if is_word(m, "JUMP_GREATER_THAN") {
        Some(Instruction::JumpGreaterThan)
    } else if is_word(m, "JUMP_EQUAL") {
        Some(Instruction::JumpEqual)
    } else if is_word(m, "SPAWN") {
        Some(Instruction::Spawn)
    } else if is_word(m, "SEND_CHANNEL") {
        Some(Instruction::SendChannel)
    } else if is_word(m, "RECV_CHANNEL") {
        Some(Instruction::RecvChannel)
    } else if is_word(m, "LOG") {
        Some(Instruction::Log)
    } else {
        None
    }
}

impl Instruction {
    /// Decodes the words of one line.
    pub fn try_from(iter_w: IteratorWrapper) -> (r: Result<Instruction, DecodeError>)
        ensures
            match decode(iter_w@) {
                Ok(op) => r is Ok && r->Ok_0@ == op,
                Err(e) => r == Err::<Instruction, DecodeError>(e),
            },
    {
        let ws = iter_w.0;
        assert(ws@.map_values(|w: Vec<char>| w@) == iter_w@);
        if ws.len() == 0 {
            return Err(DecodeError::EmptyInstruction);
        }
        assert(iter_w@[0] == ws[0]@);
        if is_word(&ws[0], "LOAD_VAL") {
            if ws.len() < 2 {
                return Err(DecodeError::EmptyLoadValOperand);
            }
            assert(iter_w@[1] == ws[1]@);
            match parse_numeral(ws[1].as_slice()) {
                Some(n) => Ok(Instruction::LoadVal(n)),
                None => Err(DecodeError::BadLoadValOperand),
            }
        } else if is_word(&ws[0], "WRITE_VAR") {
            if ws.len() < 2 {
                return Err(DecodeError::EmptyWriteVarOperand);
            }
            assert(iter_w@[1] == ws[1]@);
            Ok(Instruction::WriteVar(text_of(ws[1].as_slice())))
        } else if is_word(&ws[0], "READ_VAR") {
            if ws.len() < 2 {
                return Err(DecodeError::EmptyReadVarOperand);
            }
            assert(iter_w@[1] == ws[1]@);
            Ok(Instruction::ReadVar(text_of(ws[1].as_slice())))
        } else {
            match bare_instruction(&ws[0]) {
                Some(i) => Ok(i),
                None => Err(DecodeError::UnknownInstruction),
            }
        }
    }
}

/// An instruction with the 0-based number of the source line it was decoded from.
#[derive(Debug, PartialEq, Clone)]
pub struct IndexedInstruction {
    index: usize,
    instruction: Instruction,
}

impl View for IndexedInstruction {
    type V = (usize, Op);

    open spec fn view(&self) -> (usize, Op) {
        (self.line(), self.ins()@)
    }
}

impl IndexedInstruction {
    /// The source line number.
    pub closed spec fn line(&self) -> usize {
        self.index
    }

    /// The instruction.
    pub closed spec fn ins(&self) -> Instruction {
        self.instruction
    }

    pub fn new(index: usize, instruction: Instruction) -> (r: Self)
        ensures
            r.line() == index,
            r.ins() == instruction,
    {
        Self { index, instruction }
    }

    pub fn index(&self) -> (r: usize)
        ensures
            r == self.line(),
    {
        self.index
    }

    pub fn instruction(&self) -> (r: &Instruction)
        ensures
            *r == self.ins(),
    {
        &self.instruction
    }
}

} // verus!
