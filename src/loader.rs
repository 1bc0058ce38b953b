//! From program text to decoded instructions.
use vstd::prelude::*;

use crate::instructions::{decode, DecodeError, IndexedInstruction, Instruction, IteratorWrapper, Op};
use crate::text::{chars_of, line_error, line_error_text};

verus! {

/// The characters that separate words: ASCII space, tab, line feed, form feed
/// and carriage return.
pub open spec fn is_blank(c: char) -> bool {
    c == ' ' || c == '\t' || c == '\n' || c == '\x0C' || c == '\r'
}

/// Reading `s` into words: the words already closed, and the one being read.
pub open spec fn scan_words(s: Seq<char>) -> (Seq<Seq<char>>, Seq<char>)
    decreases s.len(),
{
    if s.len() == 0 {
        (seq![], seq![])
    } else {
        let p = scan_words(s.drop_last());
        let c = s.last();
        if !is_blank(c) {
            (p.0, p.1.push(c))
        } else if p.1.len() > 0 {
            (p.0.push(p.1), seq![])
        } else {
            p
        }
    }
}

/// The maximal runs of non-blank characters of `s`, in order.
pub open spec fn words(s: Seq<char>) -> Seq<Seq<char>> {
    let p = scan_words(s);
    if p.1.len() > 0 {
        p.0.push(p.1)
    } else {
        p.0
    }
}

/// A line without the carriage return that ends it, if one does.
pub open spec fn strip_cr(l: Seq<char>) -> Seq<char> {
    if l.len() > 0 && l.last() == '\r' {
        l.drop_last()
    } else {
        l
    }
}

/// Reading `s` into lines: the lines already ended by a line feed, and the one
/// being read.
pub open spec fn scan_lines(s: Seq<char>) -> (Seq<Seq<char>>, Seq<char>)
    decreases s.len(),
{
    if s.len() == 0 {
        (seq![], seq![])
    } else {
        let p = scan_lines(s.drop_last());
        let c = s.last();
        if c == '\n' {
            (p.0.push(strip_cr(p.1)), seq![])
        } else {
            (p.0, p.1.push(c))
        }
    }
}

/// The lines of `s`: split at each line feed, a carriage return before it dropped;
/// no empty line after a final line feed.
pub open spec fn lines(s: Seq<char>) -> Seq<Seq<char>> {
    let p = scan_lines(s);
    if p.1.len() > 0 {
        p.0.push(p.1)
    } else {
        p.0
    }
}

/// Lines that hold no instruction: empty ones and comments.
pub open spec fn is_skipped(l: Seq<char>) -> bool {
    l.len() == 0 || (l.len() >= 2 && l[0] == '/' && l[1] == '/')
}

/// Decoding the first `n` lines: each instruction with its line number, and each
/// failure with its line number.
pub open spec fn load_lines(ls: Seq<Seq<char>>, n: nat) -> (Seq<(usize, Op)>, Seq<(nat, DecodeError)>)
    decreases n,
{
    if n == 0 || n > ls.len() {
        (seq![], seq![])
    } else {
        let p = load_lines(ls, (n - 1) as nat);
        let l = ls[n - 1];
        if is_skipped(l) {
            p
        } else {
            match decode(words(l)) {
                Ok(op) => (p.0.push(((n - 1) as usize, op)), p.1),
                Err(e) => (p.0, p.1.push(((n - 1) as nat, e))),
            }
        }
    }
}

/// The program that `text` holds, or the message for each line that fails to decode.
pub open spec fn load(text: Seq<char>) -> Result<Seq<(usize, Op)>, Seq<Seq<char>>> {
    let ls = lines(text);
    let r = load_lines(ls, ls.len());
    if r.1.len() == 0 {
        Ok(r.0)
    } else {
        Err(r.1.map_values(|e: (nat, DecodeError)| line_error_text(e.0, e.1.text())))
    }
}

/// Splits a line into its words.
pub fn split_words(s: &[char]) -> (r: Vec<Vec<char>>)
    ensures
        r@.map_values(|v: Vec<char>| v@) == words(s@),
{
    let mut done: Vec<Vec<char>> = Vec::new();
    let mut cur: Vec<char> = Vec::new();
    let mut i: usize = 0;
    while i < s.len()
        invariant
            i <= s.len(),
            (done@.map_values(|v: Vec<char>| v@), cur@) == scan_words(s@.take(i as int)),
        decreases s.len() - i,
    {
        let c = s[i];
        assert(s@.take(i + 1).drop_last() =~= s@.take(i as int));
        if !(c == ' ' || c == '\t' || c == '\n' || c == '\x0C' || c == '\r') {
            cur.push(c);
        } else if cur.len() > 0 {
            let ghost d = done@.map_values(|v: Vec<char>| v@);
            let w = cur;
            cur = Vec::new();
            done.push(w);
            assert(done@.map_values(|v: Vec<char>| v@) =~= d.push(w@));
            assert(cur@ =~= seq![]);
        }
        i = i + 1;
    }
    assert(s@.take(i as int) =~= s@);
    if cur.len() > 0 {
        let ghost d = done@.map_values(|v: Vec<char>| v@);
        let ghost w = cur@;
        done.push(cur);
        assert(done@.map_values(|v: Vec<char>| v@) =~= d.push(w));
    }
    done
}

/// Splits a text into its lines.
pub fn split_lines(s: &[char]) -> (r: Vec<Vec<char>>)
    ensures
        r@.map_values(|v: Vec<char>| v@) == lines(s@),
{
    let mut done: Vec<Vec<char>> = Vec::new();
    let mut cur: Vec<char> = Vec::new();
    let mut i: usize = 0;
    while i < s.len()
        invariant
            i <= s.len(),
            (done@.map_values(|v: Vec<char>| v@), cur@) == scan_lines(s@.take(i as int)),
        decreases s.len() - i,
    {
        let c = s[i];
        assert(s@.take(i + 1).drop_last() =~= s@.take(i as int));
        if c == '\n' {
            let ghost d = done@.map_values(|v: Vec<char>| v@);
            let ghost stripped = strip_cr(cur@);
            if cur.len() > 0 && cur[cur.len() - 1] == '\r' {
                cur.pop();
            }
            assert(cur@ =~= stripped);
            let w = cur;
            cur = Vec::new();
            done.push(w);
            assert(done@.map_values(|v: Vec<char>| v@) =~= d.push(stripped));
            assert(cur@ =~= seq![]);
        } else {
            cur.push(c);
        }
        i = i + 1;
    }
    assert(s@.take(i as int) =~= s@);
    if cur.len() > 0 {
        let ghost d = done@.map_values(|v: Vec<char>| v@);
        let ghost w = cur@;
        done.push(cur);
        assert(done@.map_values(|v: Vec<char>| v@) =~= d.push(w));
    }
    done
}

/// Decodes every line of `text` that is neither empty nor a comment. All failures
/// are gathered; instructions are handed out only when there is none.
pub fn load_program(text: &str) -> (r: Result<Vec<IndexedInstruction>, Vec<String>>)
    ensures
        match load(text@) {
            Ok(p) => r is Ok && r->Ok_0@.map_values(|x: IndexedInstruction| x@) == p,
            Err(es) => r is Err && r->Err_0@.map_values(|s: String| s@) == es,
        },
{
    let cs = chars_of(text);
    let ls = split_lines(cs.as_slice());
    let ghost gl = ls@.map_values(|v: Vec<char>| v@);
    let mut program: Vec<IndexedInstruction> = Vec::new();
    let mut errors: Vec<String> = Vec::new();
    let mut i: usize = 0;
    while i < ls.len()
        invariant
            i <= ls.len(),
            gl == ls@.map_values(|v: Vec<char>| v@),
            gl == lines(text@),
            program@.map_values(|x: IndexedInstruction| x@) == load_lines(gl, i as nat).0,
            errors@.map_values(|s: String| s@) == load_lines(gl, i as nat).1.map_values(
                |e: (nat, DecodeError)| line_error_text(e.0, e.1.text()),
            ),
        decreases ls.len() - i,
    {
        let l = &ls[i];
        assert(gl[i as int] == l@);
        let ghost before = load_lines(gl, i as nat);
        assert(load_lines(gl, (i + 1) as nat) == {
            if is_skipped(l@) {
                before
            } else {
                match decode(words(l@)) {
                    Ok(op) => (before.0.push((i, op)), before.1),
                    Err(e) => (before.0, before.1.push((i as nat, e))),
                }
            }
        });
        let skipped = l.len() == 0 || (l.len() >= 2 && l[0] == '/' && l[1] == '/');
        if !skipped {
            let ws = split_words(l.as_slice());
            match Instruction::try_from(IteratorWrapper(ws)) {
                Ok(ins) => {
                    let ghost pv = program@.map_values(|x: IndexedInstruction| x@);
                    let item = IndexedInstruction::new(i, ins);
                    program.push(item);
                    assert(program@.map_values(|x: IndexedInstruction| x@) =~= pv.push(item@));
                },
                Err(e) => {
                    let ghost ev = errors@.map_values(|s: String| s@);
                    let reason = chars_of(e.message());
                    let msg = line_error(i, reason.as_slice());
                    errors.push(msg);
                    assert(errors@.map_values(|s: String| s@) =~= ev.push(msg@));
                    assert(load_lines(gl, (i + 1) as nat).1.map_values(
                        |e: (nat, DecodeError)| line_error_text(e.0, e.1.text()),
                    ) =~= before.1.map_values(
                        |e: (nat, DecodeError)| line_error_text(e.0, e.1.text()),
                    ).push(msg@));
                },
            }
        }
        i = i + 1;
    }
    if errors.len() > 0 {
        Err(errors)
    } else {
        Ok(program)
    }
}

} // verus!
