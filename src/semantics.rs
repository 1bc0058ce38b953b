//! What each instruction does to a worker, stated over a mathematical model of
//! the worker; and the faults that stop a worker, with their messages.
use vstd::prelude::*;

use crate::instructions::{IndexedInstruction, Instruction};
use crate::text::{decimal, line_error, line_error_text, push_decimal, push_str, text_of};

verus! {

/// A worker's state, apart from its program.
pub struct State {
    /// The worker's identity.
    pub id: usize,
    /// Position of the next instruction in the decoded program.
    pub pc: u128,
    /// The evaluation stack; its last element is the top.
    pub stack: Seq<u128>,
    pub vars: Map<Seq<char>, u128>,
    /// Identities of the peers this worker can send to.
    pub senders: Seq<usize>,
    /// Identities of the peers this worker can receive from.
    pub receivers: Seq<usize>,
    /// Set once the worker has returned.
    pub ret: Option<u128>,
}

/// A worker that has run nothing yet.
pub open spec fn fresh(id: usize, pc: u128, stack: Seq<u128>, senders: Seq<usize>) -> State {
    State { id, pc, stack, vars: Map::empty(), senders, receivers: seq![], ret: None }
}

/// What a worker asks of its host after an instruction (the model of `Effect`).
pub enum Demand {
    Log(u128),
    Send { channel: u128, data: u128 },
    Recv { channel: u128 },
    Spawn { start_a: u128, args_a: Seq<u128>, start_b: u128, args_b: Seq<u128> },
}

/// Work that only the host can do for a worker: print, use a channel, start workers.
#[derive(Debug, PartialEq, Clone)]
pub enum Effect {
    /// Show the value on the diagnostic output.
    Log(u128),
    /// Hand `data` to the peer `channel` and wait until it takes it.
    Send { channel: u128, data: u128 },
    /// Wait for a value from the peer `channel`, then hand it to `ByteCode::deliver`.
    Recv { channel: u128 },
    /// Start two workers: each begins at its start position with its arguments as
    /// its stack (the first one at the bottom).
    Spawn { start_a: u128, args_a: Vec<u128>, start_b: u128, args_b: Vec<u128> },
}

impl View for Effect {
    type V = Demand;

    open spec fn view(&self) -> Demand {
        match self {
            Effect::Log(v) => Demand::Log(*v),
            Effect::Send { channel, data } => Demand::Send { channel: *channel, data: *data },
            Effect::Recv { channel } => Demand::Recv { channel: *channel },
            Effect::Spawn { start_a, args_a, start_b, args_b } => Demand::Spawn {
                start_a: *start_a,
                args_a: args_a@,
                start_b: *start_b,
                args_b: args_b@,
            },
        }
    }
}

pub open spec fn demand_of(e: Option<Effect>) -> Option<Demand> {
    match e {
        Some(e) => Some(e@),
        None => None,
    }
}

/// Why an instruction fails.
#[derive(Debug, PartialEq, Clone)]
pub enum ExecError {
    StackEmpty,
    UnknownVariable(String),
    AddOverflow(u128, u128),
    SubOverflow(u128, u128),
    MulOverflow(u128, u128),
    MissingSender(u128),
    MissingReceiver(u128),
}

/// Why a worker stops with an error.
#[derive(Debug, PartialEq, Clone)]
pub enum Fault {
    /// The program counter names no instruction.
    NoInstruction(u128),
    /// The instruction decoded from source line `line` failed.
    Failed { line: usize, error: ExecError },
}

impl ExecError {
    pub open spec fn text(&self) -> Seq<char> {
        match self {
            ExecError::StackEmpty => "Stack is empty"@,
            ExecError::UnknownVariable(name) => "Variable '"@ + name@ + "' doesn't exist"@,
            ExecError::AddOverflow(a, b) => "Addition overflow occurred ("@ + decimal(*a as nat)
                + " + "@ + decimal(*b as nat) + ")"@,
            ExecError::SubOverflow(a, b) => "Subtraction overflow occurred ("@ + decimal(
                *a as nat,
            ) + " - "@ + decimal(*b as nat) + ")"@,
            ExecError::MulOverflow(a, b) => "Multiplication overflow occurred ("@ + decimal(
                *a as nat,
            ) + " * "@ + decimal(*b as nat) + ")"@,
            ExecError::MissingSender(c) => "Sender "@ + decimal(*c as nat) + " doesn't exist"@,
            ExecError::MissingReceiver(c) => "Receiver "@ + decimal(*c as nat)
                + " doesn't exist"@,
        }
    }

    fn push_operands(out: &mut Vec<char>, a: u128, op: &str, b: u128)
        ensures
            final(out)@ == old(out)@ + decimal(a as nat) + op@ + decimal(b as nat) + ")"@,
    {
        push_decimal(out, a);
        push_str(out, op);
        push_decimal(out, b);
        push_str(out, ")");
        assert(final(out)@ =~= old(out)@ + decimal(a as nat) + op@ + decimal(b as nat) + ")"@);
    }

    /// Appends the reason, in words.
    pub fn push_text(&self, out: &mut Vec<char>)
        ensures
            final(out)@ == old(out)@ + self.text(),
    {
        let ghost start = out@;
        match self {
            ExecError::StackEmpty => push_str(out, "Stack is empty"),
            ExecError::UnknownVariable(name) => {
                push_str(out, "Variable '");
                push_str(out, name.as_str());
                push_str(out, "' doesn't exist");
            },
            ExecError::AddOverflow(a, b) => {
                push_str(out, "Addition overflow occurred (");
                Self::push_operands(out, *a, " + ", *b);
            },
            ExecError::SubOverflow(a, b) => {
                push_str(out, "Subtraction overflow occurred (");
                Self::push_operands(out, *a, " - ", *b);
            },
            ExecError::MulOverflow(a, b) => {
                push_str(out, "Multiplication overflow occurred (");
                Self::push_operands(out, *a, " * ", *b);
            },
            ExecError::MissingSender(c) => {
                push_str(out, "Sender ");
                push_decimal(out, *c);
                push_str(out, " doesn't exist");
            },
            ExecError::MissingReceiver(c) => {
                push_str(out, "Receiver ");
                push_decimal(out, *c);
                push_str(out, " doesn't exist");
            },
        }
        assert(out@ =~= start + self.text());
    }
}

impl Fault {
    pub open spec fn text(&self) -> Seq<char> {
        match self {
            Fault::NoInstruction(pc) => "Instruction doesn't exist at "@ + decimal(*pc as nat)
                + " position"@,
            Fault::Failed { line, error } => line_error_text(*line as nat, error.text()),
        }
    }

    /// The diagnostic: `Line: <line>, error: <reason>` for a failed instruction.
    pub fn message(&self) -> (r: String)
        ensures
            r@ == self.text(),
    {
        match self {
            Fault::NoInstruction(pc) => {
                let mut out: Vec<char> = Vec::new();
                push_str(&mut out, "Instruction doesn't exist at ");
                push_decimal(&mut out, *pc);
                push_str(&mut out, " position");
                assert(out@ =~= self.text());
                text_of(out.as_slice())
            },
            Fault::Failed { line, error } => {
                let mut reason: Vec<char> = Vec::new();
                error.push_text(&mut reason);
                assert(reason@ =~= error.text());
                line_error(*line, reason.as_slice())
            },
        }
    }
}

/// The value `k` places below the top of the stack.
pub open spec fn peek(st: Seq<u128>, k: int) -> u128 {
    st[st.len() - 1 - k]
}

/// The stack without its top `k` values.
pub open spec fn drop_top(st: Seq<u128>, k: int) -> Seq<u128> {
    st.subrange(0, st.len() - k)
}

/// The top `k` values of the stack, in the order they are popped.
pub open spec fn popped(st: Seq<u128>, k: int) -> Seq<u128> {
    Seq::new(k as nat, |j: int| st[st.len() - 1 - j])
}

/// Whether a channel id names one of the peers.
pub open spec fn has_peer(peers: Seq<usize>, channel: u128) -> bool {
    exists|i: int| 0 <= i < peers.len() && peers[i] as u128 == channel
}

/// The state after an instruction that sets the stack and moves on to the next one.
pub open spec fn proceed(s: State, stack: Seq<u128>) -> State {
    State { stack, pc: (s.pc + 1) as u128, ..s }
}

/// What a conditional jump does: it consumes target, right and left operands,
/// and goes to the target when `taken`.
pub open spec fn branch(s: State, taken: bool) -> State {
    State {
        stack: drop_top(s.stack, 3),
        pc: if taken {
            peek(s.stack, 0)
        } else {
            (s.pc + 1) as u128
        },
        ..s
    }
}

/// What executing `ins` does to the worker `s`: the next state and what the host
/// has to do, or the error.
pub open spec fn execute(ins: Instruction, s: State) -> Result<(State, Option<Demand>), ExecError> {
    let st = s.stack;
    let n = st.len();
    match ins {
        Instruction::LoadVal(v) => Ok((proceed(s, st.push(v)), None)),
        Instruction::WriteVar(name) => if n < 1 {
            Err(ExecError::StackEmpty)
        } else {
            Ok(
                (
                    State { vars: s.vars.insert(name@, peek(st, 0)), ..proceed(s, drop_top(st, 1)) },
                    None,
                ),
            )
        },
        Instruction::ReadVar(name) => if !s.vars.contains_key(name@) {
            Err(ExecError::UnknownVariable(name))
        } else {
            Ok((proceed(s, st.push(s.vars[name@])), None))
        },
        Instruction::Add => if n < 2 {
            Err(ExecError::StackEmpty)
        } else if peek(st, 0) + peek(st, 1) > u128::MAX {
            Err(ExecError::AddOverflow(peek(st, 0), peek(st, 1)))
        } else {
            Ok((proceed(s, drop_top(st, 2).push((peek(st, 0) + peek(st, 1)) as u128)), None))
        },
        Instruction::Sub => if n < 2 {
            Err(ExecError::StackEmpty)
        } else if peek(st, 1) < peek(st, 0) {
            Err(ExecError::SubOverflow(peek(st, 1), peek(st, 0)))
        } else {
            Ok((proceed(s, drop_top(st, 2).push((peek(st, 1) - peek(st, 0)) as u128)), None))
        },
        Instruction::Mul => if n < 2 {
            Err(ExecError::StackEmpty)
        } else if peek(st, 0) * peek(st, 1) > u128::MAX {
            Err(ExecError::MulOverflow(peek(st, 0), peek(st, 1)))
        } else {
            Ok((proceed(s, drop_top(st, 2).push((peek(st, 0) * peek(st, 1)) as u128)), None))
        },
        Instruction::RetVal => if n < 1 {
            Err(ExecError::StackEmpty)
        } else {
            Ok((State { stack: drop_top(st, 1), ret: Some(peek(st, 0)), ..s }, None))
        },
        Instruction::Jump => if n < 1 {
            Err(ExecError::StackEmpty)
        } else {
            Ok((State { stack: drop_top(st, 1), pc: peek(st, 0), ..s }, None))
        },
        Instruction::JumpLessThan => if n < 3 {
            Err(ExecError::StackEmpty)
        } else {
            Ok((branch(s, peek(st, 2) < peek(st, 1)), None))
        },
        Instruction::JumpGreaterThan => if n < 3 {
            Err(ExecError::StackEmpty)
        } else {
            Ok((branch(s, peek(st, 2) > peek(st, 1)), None))
        },
        Instruction::JumpEqual => if n < 3 {
            Err(ExecError::StackEmpty)
        } else {
            Ok((branch(s, peek(st, 2) == peek(st, 1)), None))
        },
        Instruction::Spawn => {
            let rest = drop_top(st, 4);
            let count_b = peek(st, 1) as int;
            let count_a = peek(st, 3) as int;
            if n < 4 || count_b + count_a > rest.len() {
                Err(ExecError::StackEmpty)
            } else {
                Ok(
                    (
                        proceed(s, drop_top(rest, count_b + count_a)),
                        Some(
                            Demand::Spawn {
                                start_a: peek(st, 2),
                                args_a: popped(drop_top(rest, count_b), count_a),
                                start_b: peek(st, 0),
                                args_b: popped(rest, count_b),
                            },
                        ),
                    ),
                )
            }
        },
        Instruction::SendChannel => if n < 2 {
            Err(ExecError::StackEmpty)
        } else if !has_peer(s.senders, peek(st, 0)) {
            Err(ExecError::MissingSender(peek(st, 0)))
        } else {
            Ok(
                (
                    proceed(s, drop_top(st, 2)),
                    Some(Demand::Send { channel: peek(st, 0), data: peek(st, 1) }),
                ),
            )
        },
        Instruction::RecvChannel => if n < 1 {
            Err(ExecError::StackEmpty)
        } else if !has_peer(s.receivers, peek(st, 0)) {
            Err(ExecError::MissingReceiver(peek(st, 0)))
        } else {
            Ok((proceed(s, drop_top(st, 1)), Some(Demand::Recv { channel: peek(st, 0) })))
        },
        Instruction::Log => if n < 1 {
            Err(ExecError::StackEmpty)
        } else {
            Ok((proceed(s, drop_top(st, 1)), Some(Demand::Log(peek(st, 0)))))
        },
    }
}

/// The instruction at position `pc` of the program, if there is one.
pub open spec fn fetch(program: Seq<IndexedInstruction>, pc: u128) -> Option<IndexedInstruction> {
    if pc < program.len() {
        Some(program[pc as int])
    } else {
        None
    }
}

/// One fetch and execute of the worker `s` running `program`.
pub open spec fn step(program: Seq<IndexedInstruction>, s: State) -> Result<
    (State, Option<Demand>),
    Fault,
> {
    match fetch(program, s.pc) {
        None => Err(Fault::NoInstruction(s.pc)),
        Some(ii) => match execute(ii.ins(), s) {
            Ok(r) => Ok(r),
            Err(e) => Err(Fault::Failed { line: ii.line(), error: e }),
        },
    }
}

/// Running at most `fuel` instructions, up to the first that returns, that fails,
/// or that needs the host.
pub open spec fn run(program: Seq<IndexedInstruction>, s: State, fuel: nat) -> Result<
    (State, Option<Demand>),
    Fault,
>
    decreases fuel,
{
    if s.ret is Some || fuel == 0 {
        Ok((s, None))
    } else {
        match step(program, s) {
            Err(f) => Err(f),
            Ok((next, d)) => if d is Some {
                Ok((next, d))
            } else {
                run(program, next, (fuel - 1) as nat)
            },
        }
    }
}

} // verus!
