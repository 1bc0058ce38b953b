//! Facts about loading and executing programs, proved from the loader's and the
//! machine's specifications.
use vstd::prelude::*;

use crate::instructions::{decode, DecodeError, IndexedInstruction, Instruction, Op};
use crate::loader::{is_blank, is_skipped, lines, load, load_lines, scan_lines, scan_words, strip_cr, words};
use crate::semantics::{execute, fetch, fresh, peek, run, step, State};
use crate::text::{
    all_digits, decimal, digit_char, digit_value, digits_value, is_digit, numeral_value,
    unsigned_digits,
};

verus! {

/// How many values an instruction takes off the stack `st`.
pub open spec fn pops(ins: Instruction, st: Seq<u128>) -> nat {
    match ins {
        Instruction::LoadVal(_) | Instruction::ReadVar(_) => 0,
        Instruction::WriteVar(_) | Instruction::RetVal | Instruction::Jump
        | Instruction::RecvChannel | Instruction::Log => 1,
        Instruction::Add | Instruction::Sub | Instruction::Mul | Instruction::SendChannel => 2,
        Instruction::JumpLessThan | Instruction::JumpGreaterThan | Instruction::JumpEqual => 3,
        Instruction::Spawn => (4 + peek(st, 1) + peek(st, 3)) as nat,
    }
}

/// How many values an instruction puts on the stack.
pub open spec fn pushes(ins: Instruction) -> nat {
    match ins {
        Instruction::LoadVal(_) | Instruction::ReadVar(_) | Instruction::Add | Instruction::Sub
        | Instruction::Mul => 1,
        _ => 0,
    }
}

/// The first `k` instructions that the worker `s` executes: the state they lead
/// to and the sum of their pushes minus their pops; `None` if it cannot execute
/// that many (it returned, or one failed).
pub open spec fn trace(program: Seq<IndexedInstruction>, s: State, k: nat) -> Option<(State, int)>
    decreases k,
{
    if k == 0 {
        Some((s, 0))
    } else {
        match trace(program, s, (k - 1) as nat) {
            None => None,
            Some((t, net)) => if (t.ret is Some) {
                None
            } else {
                match fetch(program, t.pc) {
                    None => None,
                    Some(ii) => match execute(ii.ins(), t) {
                        Ok((u, _)) => Some((u, net + pushes(ii.ins()) - pops(ii.ins(), t.stack))),
                        Err(_) => None,
                    },
                }
            },
        }
    }
}

/// An instruction that executes changes the depth of the stack by its pushes
/// minus its pops.
pub proof fn lemma_step_depth(ins: Instruction, s: State)
    requires
        execute(ins, s) is Ok,
    ensures
        execute(ins, s)->Ok_0.0.stack.len() == s.stack.len() + pushes(ins) - pops(ins, s.stack),
{
}

/// Along any run, the depth of the stack is its first depth plus the pushes minus
/// the pops of the instructions executed so far.
pub proof fn lemma_trace_depth(program: Seq<IndexedInstruction>, s: State, k: nat)
    ensures
        match trace(program, s, k) {
            Some((t, net)) => t.stack.len() == s.stack.len() + net,
            None => true,
        },
    decreases k,
{
    if k > 0 {
        lemma_trace_depth(program, s, (k - 1) as nat);
        if let Some((t, net)) = trace(program, s, (k - 1) as nat) {
            if let Some(ii) = fetch(program, t.pc) {
                if execute(ii.ins(), t) is Ok {
                    lemma_step_depth(ii.ins(), t);
                }
            }
        }
    }
}

/// `LOAD_VAL n` then `WRITE_VAR name` binds `name` to `n`, whatever was bound
/// before, and leaves the stack as it was.
pub proof fn lemma_load_then_write(n: u128, name: String, s: State)
    requires
        s.pc < u128::MAX - 1,
    ensures
        execute(Instruction::LoadVal(n), s) is Ok,
        execute(Instruction::WriteVar(name), execute(Instruction::LoadVal(n), s)->Ok_0.0) is Ok,
        execute(
            Instruction::WriteVar(name),
            execute(Instruction::LoadVal(n), s)->Ok_0.0,
        )->Ok_0.0.vars == s.vars.insert(name@, n),
        execute(
            Instruction::WriteVar(name),
            execute(Instruction::LoadVal(n), s)->Ok_0.0,
        )->Ok_0.0.vars[name@] == n,
        execute(
            Instruction::WriteVar(name),
            execute(Instruction::LoadVal(n), s)->Ok_0.0,
        )->Ok_0.0.stack == s.stack,
{
    let t = execute(Instruction::LoadVal(n), s)->Ok_0.0;
    assert(t.stack.subrange(0, t.stack.len() - 1) =~= s.stack);
}

/// The state after `LOAD_VAL n` then `WRITE_VAR name`.
pub open spec fn load_write(n: u128, name: String, s: State) -> State {
    execute(Instruction::WriteVar(name), execute(Instruction::LoadVal(n), s)->Ok_0.0)->Ok_0.0
}

/// Repeating `LOAD_VAL n` then `WRITE_VAR name` changes no variable and no stack
/// value: the second binding is the first.
pub proof fn lemma_rebinding(n: u128, name: String, s: State)
    requires
        s.pc < u128::MAX - 3,
    ensures
        load_write(n, name, load_write(n, name, s)).vars == load_write(n, name, s).vars,
        load_write(n, name, load_write(n, name, s)).stack == load_write(n, name, s).stack,
{
    lemma_load_then_write(n, name, s);
    let t = load_write(n, name, s);
    lemma_load_then_write(n, name, t);
    assert(t.vars.insert(name@, n) =~= t.vars);
}

/// A program of `LOAD_VAL n` then `RETURN_VALUE` returns `n`.
pub proof fn lemma_load_return(
    n: u128,
    first: IndexedInstruction,
    second: IndexedInstruction,
    fuel: nat,
)
    requires
        first.ins() == Instruction::LoadVal(n),
        second.ins() == Instruction::RetVal,
        fuel >= 2,
    ensures
        run(seq![first, second], fresh(0, 0, seq![], seq![]), fuel) is Ok,
        run(seq![first, second], fresh(0, 0, seq![], seq![]), fuel)->Ok_0.0.ret == Some(n),
{
    let program = seq![first, second];
    let s0 = fresh(0, 0, seq![], seq![]);
    let s1 = step(program, s0)->Ok_0.0;
    let s2 = step(program, s1)->Ok_0.0;
    assert(fetch(program, s0.pc) == Some(first));
    assert(s1.stack =~= seq![n]);
    assert(fetch(program, s1.pc) == Some(second));
    assert(s2.ret == Some(n));
    assert(run(program, s1, (fuel - 1) as nat) == run(program, s2, (fuel - 2) as nat));
    assert(run(program, s0, fuel) == run(program, s1, (fuel - 1) as nat));
}

/// `LOAD_VAL k` then `JUMP` continues at position `k` of the decoded program, with
/// the stack as it was.
pub proof fn lemma_load_then_jump(program: Seq<IndexedInstruction>, s: State, k: u128)
    requires
        program.len() <= usize::MAX,
        s.pc + 1 < program.len(),
        program[s.pc as int].ins() == Instruction::LoadVal(k),
        program[s.pc + 1].ins() == Instruction::Jump,
    ensures
        step(program, s) is Ok,
        step(program, step(program, s)->Ok_0.0) is Ok,
        step(program, step(program, s)->Ok_0.0)->Ok_0.0.pc == k,
        step(program, step(program, s)->Ok_0.0)->Ok_0.0.stack == s.stack,
{
    assert(fetch(program, s.pc) == Some(program[s.pc as int]));
    let t = step(program, s)->Ok_0.0;
    assert(t.pc == s.pc + 1);
    assert(fetch(program, t.pc) == Some(program[s.pc + 1]));
    assert(t.stack.subrange(0, t.stack.len() - 1) =~= s.stack);
}

/// The decimal numeral of `n` is a run of digits that spells `n`.
pub proof fn lemma_decimal_reads_back(n: nat)
    ensures
        decimal(n).len() > 0,
        all_digits(decimal(n)),
        digits_value(decimal(n)) == n,
    decreases n,
{
    if n >= 10 {
        lemma_decimal_reads_back(n / 10);
        let s = decimal(n / 10);
        assert(decimal(n).drop_last() =~= s);
        assert((n / 10) * 10 + n % 10 == n) by (nonlinear_arith);
        assert(decimal(n).last() == digit_char(n % 10));
        assert(digit_value(digit_char(n % 10)) == n % 10);
        assert(digits_value(decimal(n)) == digits_value(s) * 10 + n % 10);
        assert forall|i: int| 0 <= i < decimal(n).len() implies is_digit(
            #[trigger] decimal(n)[i],
        ) by {
            if i < s.len() {
                assert(decimal(n)[i] == s[i]);
            }
        }
    } else {
        assert(decimal(n).drop_last() =~= Seq::<char>::empty());
        assert(digits_value(Seq::<char>::empty()) == 0);
        assert(digit_value(digit_char(n)) == n);
    }
}

/// Reading characters without a line feed only extends the line being read.
proof fn lemma_scan_lines_plain(s: Seq<char>, t: Seq<char>)
    requires
        forall|i: int| 0 <= i < t.len() ==> t[i] != '\n',
    ensures
        scan_lines(s + t) == (scan_lines(s).0, scan_lines(s).1 + t),
    decreases t.len(),
{
    if t.len() == 0 {
        assert(s + t =~= s);
        assert(scan_lines(s).1 + t =~= scan_lines(s).1);
    } else {
        let u = t.drop_last();
        lemma_scan_lines_plain(s, u);
        assert((s + t).drop_last() =~= s + u);
        assert(scan_lines(s).1 + t =~= (scan_lines(s).1 + u).push(t.last()));
    }
}

/// Reading characters that are not blank only extends the word being read.
proof fn lemma_scan_words_plain(s: Seq<char>, t: Seq<char>)
    requires
        forall|i: int| 0 <= i < t.len() ==> !is_blank(t[i]),
    ensures
        scan_words(s + t) == (scan_words(s).0, scan_words(s).1 + t),
    decreases t.len(),
{
    if t.len() == 0 {
        assert(s + t =~= s);
        assert(scan_words(s).1 + t =~= scan_words(s).1);
    } else {
        let u = t.drop_last();
        lemma_scan_words_plain(s, u);
        assert((s + t).drop_last() =~= s + u);
        assert(scan_words(s).1 + t =~= (scan_words(s).1 + u).push(t.last()));
    }
}

/// Two lines joined by a line feed read back as those two lines.
proof fn lemma_two_lines(first: Seq<char>, second: Seq<char>)
    requires
        forall|i: int| 0 <= i < first.len() ==> first[i] != '\n',
        forall|i: int| 0 <= i < second.len() ==> second[i] != '\n',
        first.len() > 0,
        first.last() != '\r',
        second.len() > 0,
    ensures
        lines(first.push('\n') + second) == seq![first, second],
{
    let e = Seq::<char>::empty();
    lemma_scan_lines_plain(e, first);
    assert(e + first =~= first);
    assert(first.push('\n').drop_last() =~= first);
    assert(strip_cr(first) == first);
    assert(scan_lines(first.push('\n')) == (seq![first], e));
    lemma_scan_lines_plain(first.push('\n'), second);
    assert(e + second =~= second);
    assert(lines(first.push('\n') + second) =~= seq![first, second]);
}

/// Two words joined by a space read back as those two words.
proof fn lemma_two_words(first: Seq<char>, second: Seq<char>)
    requires
        forall|i: int| 0 <= i < first.len() ==> !is_blank(first[i]),
        forall|i: int| 0 <= i < second.len() ==> !is_blank(second[i]),
        first.len() > 0,
        second.len() > 0,
    ensures
        words(first.push(' ') + second) == seq![first, second],
{
    let e = Seq::<char>::empty();
    lemma_scan_words_plain(e, first);
    assert(e + first =~= first);
    assert(first.push(' ').drop_last() =~= first);
    assert(scan_words(first.push(' ')) == (seq![first], e));
    lemma_scan_words_plain(first.push(' '), second);
    assert(e + second =~= second);
    assert(words(first.push(' ') + second) =~= seq![first, second]);
}

/// A word alone reads back as itself.
proof fn lemma_one_word(w: Seq<char>)
    requires
        forall|i: int| 0 <= i < w.len() ==> !is_blank(w[i]),
        w.len() > 0,
    ensures
        words(w) == seq![w],
{
    let e = Seq::<char>::empty();
    lemma_scan_words_plain(e, w);
    assert(e + w =~= w);
    assert(words(w) =~= seq![w]);
}

/// The text of a program that loads `n` and returns it.
pub open spec fn load_return_text(n: u128) -> Seq<char> {
    "LOAD_VAL "@ + decimal(n as nat) + "\nRETURN_VALUE"@
}

/// `LOAD_VAL <n>` decodes as loading `n`.
proof fn lemma_decode_load(n: u128)
    ensures
        decode(words("LOAD_VAL "@ + decimal(n as nat))) == Ok::<Op, DecodeError>(
            Op::LoadVal(n),
        ),
{
    reveal_strlit("LOAD_VAL ");
    reveal_strlit("LOAD_VAL");
    let digits = decimal(n as nat);
    lemma_decimal_reads_back(n as nat);
    let mnemonic = "LOAD_VAL"@;
    assert(mnemonic.len() == 8);
    assert(forall|i: int| 0 <= i < digits.len() ==> !is_blank(#[trigger] digits[i]));
    lemma_two_words(mnemonic, digits);
    assert("LOAD_VAL "@ + digits =~= mnemonic.push(' ') + digits);
    assert(unsigned_digits(digits) == digits);
    assert(numeral_value(digits) == Some(n));
}

/// `RETURN_VALUE` decodes as returning.
proof fn lemma_decode_return()
    ensures
        decode(words("RETURN_VALUE"@)) == Ok::<Op, DecodeError>(Op::RetVal),
{
    reveal_strlit("RETURN_VALUE");
    reveal_strlit("LOAD_VAL");
    reveal_strlit("WRITE_VAR");
    reveal_strlit("READ_VAR");
    reveal_strlit("ADD");
    reveal_strlit("SUB");
    reveal_strlit("MULTIPLY");
    let w = "RETURN_VALUE"@;
    assert(w.len() == 12);
    lemma_one_word(w);
    assert(w != "LOAD_VAL"@);
    assert(w != "WRITE_VAR"@);
    assert(w != "READ_VAR"@);
    assert(w != "ADD"@);
    assert(w != "SUB"@);
    assert(w != "MULTIPLY"@);
}

/// The text `LOAD_VAL <n>`, then `RETURN_VALUE` on the next line, loads as exactly
/// those two instructions.
pub proof fn lemma_load_return_text(n: u128)
    ensures
        load(load_return_text(n)) == Ok::<Seq<(usize, Op)>, Seq<Seq<char>>>(
            seq![(0usize, Op::LoadVal(n)), (1usize, Op::RetVal)],
        ),
{
    reveal_strlit("LOAD_VAL ");
    reveal_strlit("\nRETURN_VALUE");
    reveal_strlit("RETURN_VALUE");
    let digits = decimal(n as nat);
    lemma_decimal_reads_back(n as nat);
    let first = "LOAD_VAL "@ + digits;
    let second = "RETURN_VALUE"@;
    assert(second.len() == 12);
    assert(first.last() == digits.last());
    lemma_two_lines(first, second);
    assert(load_return_text(n) =~= first.push('\n') + second);
    lemma_decode_load(n);
    lemma_decode_return();
    let ls = lines(load_return_text(n));
    assert(ls == seq![first, second]);
    assert(ls[0] == first);
    assert(ls[1] == second);
    assert(load_lines(ls, 0).0.len() == 0);
    assert(load_lines(ls, 0).1.len() == 0);
    assert(!is_skipped(ls[0]));
    assert(!is_skipped(ls[1]));
    assert(load_lines(ls, 1).0 =~= seq![(0usize, Op::LoadVal(n))]);
    assert(load_lines(ls, 2).0 =~= seq![(0usize, Op::LoadVal(n)), (1usize, Op::RetVal)]);
    assert(load_lines(ls, 2).1.len() == 0);
}

/// The program that the text `LOAD_VAL <n>`, then `RETURN_VALUE`, loads returns `n`,
/// for every `n`.
pub proof fn lemma_load_return_round_trip(n: u128, program: Seq<IndexedInstruction>, fuel: nat)
    requires
        program.map_values(|x: IndexedInstruction| x@) == load(load_return_text(n))->Ok_0,
        fuel >= 2,
    ensures
        run(program, fresh(0, 0, seq![], seq![]), fuel) is Ok,
        run(program, fresh(0, 0, seq![], seq![]), fuel)->Ok_0.0.ret == Some(n),
{
    lemma_load_return_text(n);
    let views = program.map_values(|x: IndexedInstruction| x@);
    assert(views.len() == 2);
    assert(views[0] == program[0]@);
    assert(views[1] == program[1]@);
    assert(program[0].ins() == Instruction::LoadVal(n));
    assert(program[1].ins() == Instruction::RetVal);
    assert(program =~= seq![program[0], program[1]]);
    lemma_load_return(n, program[0], program[1], fuel);
}

} // verus!
