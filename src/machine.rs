//! The worker: a decoded program, its evaluation stack, its variables, and the
//! channel peers it knows; and the execution of one instruction on it.
use vstd::prelude::*;

use crate::instructions::{IndexedInstruction, Instruction};
use crate::loader::{load, load_program};
use crate::memory::Memory;
use crate::semantics::{
    demand_of, drop_top, execute, fresh, has_peer, popped, run, step, Effect, ExecError, Fault,
    State,
};

verus! {

pub struct ByteCode {
    id: usize,
    instructions: Vec<IndexedInstruction>,
    stack: Vec<u128>,
    memory: Memory,
    position: u128,
    senders: Vec<usize>,
    receivers: Vec<usize>,
    ret: Option<u128>,
}

impl View for ByteCode {
    type V = State;

    closed spec fn view(&self) -> State {
        State {
            id: self.id,
            pc: self.position,
            stack: self.stack@,
            vars: self.memory@,
            senders: self.senders@,
            receivers: self.receivers@,
            ret: self.ret,
        }
    }
}

/// Whether one of `peers` is the channel id `channel`.
fn find_peer(peers: &Vec<usize>, channel: u128) -> (r: bool)
    ensures
        r == has_peer(peers@, channel),
{
    let mut i: usize = 0;
    while i < peers.len()
        invariant
            i <= peers@.len(),
            forall|j: int| 0 <= j < i ==> peers@[j] as u128 != channel,
        decreases peers.len() - i,
    {
        if peers[i] as u128 == channel {
            return true;
        }
        i = i + 1;
    }
    false
}

/// Pops `count` values, in the order they come off the stack.
fn pop_values(stack: &mut Vec<u128>, count: usize) -> (r: Vec<u128>)
    requires
        count <= old(stack)@.len(),
    ensures
        r@ == popped(old(stack)@, count as int),
        final(stack)@ == drop_top(old(stack)@, count as int),
{
    let ghost st = stack@;
    let mut r: Vec<u128> = Vec::new();
    let mut k: usize = 0;
    while k < count
        invariant
            st == old(stack)@,
            k <= count <= st.len(),
            stack@ == drop_top(st, k as int),
            r@ == popped(st, k as int),
        decreases count - k,
    {
        let v = stack.pop().unwrap();
        r.push(v);
        assert(r@ =~= popped(st, k + 1));
        k = k + 1;
        assert(stack@ =~= drop_top(st, k as int));
    }
    r
}

impl ByteCode {
    /// The invariant of the variable store.
    pub closed spec fn wf(&self) -> bool {
        self.memory.wf()
    }

    /// The decoded program.
    pub closed spec fn program(&self) -> Seq<IndexedInstruction> {
        self.instructions@
    }

    /// The root worker of a program: identity 0, at position 0, with nothing on
    /// its stack and no variable, peer or return value.
    pub fn new(instructions: Vec<IndexedInstruction>) -> (r: Self)
        ensures
            r.wf(),
            r.program() == instructions@,
            r@ == fresh(0, 0, seq![], seq![]),
    {
        ByteCode {
            id: 0,
            instructions,
            stack: Vec::new(),
            memory: Memory::new(),
            position: 0,
            senders: Vec::new(),
            receivers: Vec::new(),
            ret: None,
        }
    }

    /// A worker started by the worker `parent`: it begins at `start` with `args` as
    /// its stack, and can send to its parent.
    pub fn child(
        instructions: Vec<IndexedInstruction>,
        id: usize,
        parent: usize,
        start: u128,
        args: Vec<u128>,
    ) -> (r: Self)
        ensures
            r.wf(),
            r.program() == instructions@,
            r@ == fresh(id, start, args@, seq![parent]),
    {
        let mut senders: Vec<usize> = Vec::new();
        senders.push(parent);
        ByteCode {
            id,
            instructions,
            stack: args,
            memory: Memory::new(),
            position: start,
            senders,
            receivers: Vec::new(),
            ret: None,
        }
    }

    /// Loads a program from its text and makes its root worker.
    pub fn from_bytecode_text(input: &str) -> (r: Result<Self, Vec<String>>)
        ensures
            match load(input@) {
                Ok(p) => r is Ok && r->Ok_0.wf() && r->Ok_0.program().map_values(
                    |x: IndexedInstruction| x@,
                ) == p && r->Ok_0@ == fresh(0, 0, seq![], seq![]),
                Err(es) => r is Err && r->Err_0@.map_values(|s: String| s@) == es,
            },
    {
        match load_program(input) {
            Ok(instructions) => Ok(Self::new(instructions)),
            Err(errors) => Err(errors),
        }
    }

    pub fn instructions(&self) -> (r: &[IndexedInstruction])
        ensures
            r@ == self.program(),
    {
        self.instructions.as_slice()
    }

    /// The value the worker returned, once it has.
    pub fn ret(&self) -> (r: Option<&u128>)
        ensures
            match r {
                Some(v) => self@.ret == Some(*v),
                None => self@.ret is None,
            },
    {
        match &self.ret {
            Some(v) => Some(v),
            None => None,
        }
    }

    /// The program counter, cut to a `usize`.
    pub fn position(&self) -> (r: usize)
        ensures
            r == self@.pc as usize,
    {
        self.position as usize
    }

    /// The evaluation stack, bottom first.
    pub fn stack(&self) -> (r: &[u128])
        ensures
            r@ == self@.stack,
    {
        self.stack.as_slice()
    }

    pub fn id(&self) -> (r: usize)
        ensures
            r == self@.id,
    {
        self.id
    }

    /// Takes the top of the stack.
    pub fn stack_pop(&mut self) -> (r: Result<u128, ExecError>)
        requires
            old(self).wf(),
        ensures
            final(self).wf(),
            final(self).program() == old(self).program(),
            old(self)@.stack.len() == 0 ==> r == Err::<u128, ExecError>(ExecError::StackEmpty)
                && final(self)@ == old(self)@,
            old(self)@.stack.len() > 0 ==> r == Ok::<u128, ExecError>(old(self)@.stack.last())
                && final(self)@ == (State { stack: old(self)@.stack.drop_last(), ..old(self)@ }),
    {
        match self.stack.pop() {
            Some(v) => Ok(v),
            None => Err(ExecError::StackEmpty),
        }
    }

    /// Hands the worker the value that a receive brought: it goes on the stack.
    pub fn deliver(&mut self, value: u128)
        requires
            old(self).wf(),
        ensures
            final(self).wf(),
            final(self).program() == old(self).program(),
            final(self)@ == (State { stack: old(self)@.stack.push(value), ..old(self)@ }),
    {
        self.stack.push(value);
    }

    /// Records a worker started by this one: this one can now receive from it.
    pub fn adopt(&mut self, child: usize)
        requires
            old(self).wf(),
        ensures
            final(self).wf(),
            final(self).program() == old(self).program(),
            final(self)@ == (State { receivers: old(self)@.receivers.push(child), ..old(self)@ }),
    {
        self.receivers.push(child);
    }
}

impl ByteCode {
    /// Moves on to the next instruction.
    fn advance(&mut self)
        requires
            old(self)@.pc < u128::MAX,
        ensures
            final(self).wf() == old(self).wf(),
            final(self).program() == old(self).program(),
            final(self)@ == (State { pc: (old(self)@.pc + 1) as u128, ..old(self)@ }),
    {
        self.position = self.position + 1;
    }

    /// Executes the instruction at the program counter. A failure names the source
    /// line of the instruction and leaves the worker as it was.
    pub fn step(&mut self) -> (r: Result<Option<Effect>, Fault>)
        requires
            old(self).wf(),
        ensures
            final(self).wf(),
            final(self).program() == old(self).program(),
            match step(old(self).program(), old(self)@) {
                Ok((s, d)) => r is Ok && final(self)@ == s && demand_of(r->Ok_0) == d,
                Err(f) => r == Err::<Option<Effect>, Fault>(f) && final(self)@ == old(self)@,
            },
    {
        if self.position >= self.instructions.len() as u128 {
            return Err(Fault::NoInstruction(self.position));
        }
        let pos = self.position as usize;
        // The program is set aside while its instruction works on the worker.
        let mut program: Vec<IndexedInstruction> = Vec::new();
        std::mem::swap(&mut program, &mut self.instructions);
        let line = program[pos].index();
        let r = program[pos].instruction().interpret(self);
        std::mem::swap(&mut program, &mut self.instructions);
        match r {
            Ok(e) => Ok(e),
            Err(error) => Err(Fault::Failed { line, error }),
        }
    }

    /// Runs at most `fuel` instructions: until the worker returns, an instruction
    /// fails, or one needs the host, whose work comes back as the effect.
    pub fn interpret(&mut self, fuel: u64) -> (r: Result<Option<Effect>, Fault>)
        requires
            old(self).wf(),
        ensures
            final(self).wf(),
            final(self).program() == old(self).program(),
            match run(old(self).program(), old(self)@, fuel as nat) {
                Ok((s, d)) => r is Ok && final(self)@ == s && demand_of(r->Ok_0) == d,
                Err(f) => r == Err::<Option<Effect>, Fault>(f),
            },
    {
        let mut left: u64 = fuel;
        while self.ret.is_none() && left > 0
            invariant
                self.wf(),
                self.program() == old(self).program(),
                run(self.program(), self@, left as nat) == run(
                    old(self).program(),
                    old(self)@,
                    fuel as nat,
                ),
            decreases left,
        {
            match self.step() {
                Err(f) => {
                    return Err(f);
                },
                Ok(Some(e)) => {
                    return Ok(Some(e));
                },
                Ok(None) => {},
            }
            left = left - 1;
        }
        Ok(None)
    }
}

impl Instruction {
    /// Executes this instruction on a worker: what `execute` states. A failure
    /// leaves the worker as it was.
    pub fn interpret(&self, bytecode: &mut ByteCode) -> (r: Result<Option<Effect>, ExecError>)
        requires
            old(bytecode).wf(),
            old(bytecode)@.pc < u128::MAX,
        ensures
            final(bytecode).wf(),
            final(bytecode).program() == old(bytecode).program(),
            match execute(*self, old(bytecode)@) {
                Ok((s, d)) => r is Ok && final(bytecode)@ == s && demand_of(r->Ok_0) == d,
                Err(e) => r == Err::<Option<Effect>, ExecError>(e) && final(bytecode)@ == old(
                    bytecode,
                )@,
            },
    {
        let n = bytecode.stack.len();
        match self {
            Instruction::LoadVal(value) => {
                bytecode.stack.push(*value);
                bytecode.advance();
                Ok(None)
            },
            Instruction::WriteVar(ident) => {
                let value = bytecode.stack_pop()?;
                bytecode.memory.insert(ident.clone(), value);
                bytecode.advance();
                Ok(None)
            },
            Instruction::ReadVar(ident) => match bytecode.memory.get(ident) {
                None => Err(ExecError::UnknownVariable(ident.clone())),
                Some(value) => {
                    bytecode.stack.push(value);
                    bytecode.advance();
                    Ok(None)
                },
            },
            Instruction::Add => {
                if n < 2 {
                    return Err(ExecError::StackEmpty);
                }
                let lhs = bytecode.stack[n - 1];
                let rhs = bytecode.stack[n - 2];
                match lhs.checked_add(rhs) {
                    None => Err(ExecError::AddOverflow(lhs, rhs)),
                    Some(v) => {
                        bytecode.stack.truncate(n - 2);
                        bytecode.stack.push(v);
                        bytecode.advance();
                        Ok(None)
                    },
                }
            },
            Instruction::Sub => {
                if n < 2 {
                    return Err(ExecError::StackEmpty);
                }
                let rhs = bytecode.stack[n - 1];
                let lhs = bytecode.stack[n - 2];
                match lhs.checked_sub(rhs) {
                    None => Err(ExecError::SubOverflow(lhs, rhs)),
                    Some(v) => {
                        bytecode.stack.truncate(n - 2);
                        bytecode.stack.push(v);
                        bytecode.advance();
                        Ok(None)
                    },
                }
            },
            Instruction::Mul => {
                if n < 2 {
                    return Err(ExecError::StackEmpty);
                }
                let lhs = bytecode.stack[n - 1];
                let rhs = bytecode.stack[n - 2];
                match lhs.checked_mul(rhs) {
                    None => Err(ExecError::MulOverflow(lhs, rhs)),
                    Some(v) => {
                        bytecode.stack.truncate(n - 2);
                        bytecode.stack.push(v);
                        bytecode.advance();
                        Ok(None)
                    },
                }
            },
            Instruction::RetVal => {
                let value = bytecode.stack_pop()?;
                bytecode.ret = Some(value);
                Ok(None)
            },
            Instruction::Jump => {
                let target = bytecode.stack_pop()?;
                bytecode.position = target;
                Ok(None)
            },
            Instruction::JumpLessThan | Instruction::JumpGreaterThan | Instruction::JumpEqual => {
                if n < 3 {
                    return Err(ExecError::StackEmpty);
                }
                let target = bytecode.stack[n - 1];
                let rhs = bytecode.stack[n - 2];
                let lhs = bytecode.stack[n - 3];
                let taken = match self {
                    Instruction::JumpLessThan => lhs < rhs,
                    Instruction::JumpGreaterThan => lhs > rhs,
                    _ => lhs == rhs,
                };
                bytecode.stack.truncate(n - 3);
                if taken {
                    bytecode.position = target;
                } else {
                    bytecode.advance();
                }
                Ok(None)
            },
            Instruction::Spawn => {
                if n < 4 {
                    return Err(ExecError::StackEmpty);
                }
                let start_b = bytecode.stack[n - 1];
                let count_b = bytecode.stack[n - 2];
                let start_a = bytecode.stack[n - 3];
                let count_a = bytecode.stack[n - 4];
                let rest = (n - 4) as u128;
                if count_b > rest || count_a > rest - count_b {
                    return Err(ExecError::StackEmpty);
                }
                let ghost st = bytecode.stack@;
                bytecode.stack.truncate(n - 4);
                let ghost r0 = bytecode.stack@;
                assert(r0 == drop_top(st, 4));
                let args_b = pop_values(&mut bytecode.stack, count_b as usize);
                let ghost r1 = bytecode.stack@;
                let args_a = pop_values(&mut bytecode.stack, count_a as usize);
                assert(bytecode.stack@ =~= drop_top(r0, (count_b + count_a) as int));
                bytecode.advance();
                Ok(Some(Effect::Spawn { start_a, args_a, start_b, args_b }))
            },
            Instruction::SendChannel => {
                if n < 2 {
                    return Err(ExecError::StackEmpty);
                }
                let channel = bytecode.stack[n - 1];
                let data = bytecode.stack[n - 2];
                if !find_peer(&bytecode.senders, channel) {
                    return Err(ExecError::MissingSender(channel));
                }
                bytecode.stack.truncate(n - 2);
                bytecode.advance();
                Ok(Some(Effect::Send { channel, data }))
            },
            Instruction::RecvChannel => {
                if n < 1 {
                    return Err(ExecError::StackEmpty);
                }
                let channel = bytecode.stack[n - 1];
                if !find_peer(&bytecode.receivers, channel) {
                    return Err(ExecError::MissingReceiver(channel));
                }
                bytecode.stack.truncate(n - 1);
                bytecode.advance();
                Ok(Some(Effect::Recv { channel }))
            },
            Instruction::Log => {
                let value = bytecode.stack_pop()?;
                bytecode.advance();
                Ok(Some(Effect::Log(value)))
            },
        }
    }
}

} // verus!
