//! Characters, decimal numerals and the assembly of message text.
use vstd::prelude::*;

verus! {

/// The decimal digit character for `d` (below ten).
pub open spec fn digit_char(d: nat) -> char {
    ((d + 48) as u8) as char
}

pub open spec fn is_digit(c: char) -> bool {
    '0' <= c && c <= '9'
}

/// The value of a decimal digit character.
pub open spec fn digit_value(c: char) -> nat {
    ((c as u32) - 48) as nat
}

/// The shortest decimal numeral of `n`, as `Display` writes integers.
pub open spec fn decimal(n: nat) -> Seq<char>
    decreases n,
{
    if n < 10 {
        seq![digit_char(n)]
    } else {
        decimal(n / 10).push(digit_char(n % 10))
    }
}

/// The number that a sequence of decimal digits spells, most significant first.
pub open spec fn digits_value(ds: Seq<char>) -> nat
    decreases ds.len(),
{
    if ds.len() == 0 {
        0
    } else {
        digits_value(ds.drop_last()) * 10 + digit_value(ds.last())
    }
}

pub open spec fn all_digits(ds: Seq<char>) -> bool {
    forall|i: int| 0 <= i < ds.len() ==> is_digit(#[trigger] ds[i])
}

/// The digits of a numeral, after an optional leading `+`.
pub open spec fn unsigned_digits(w: Seq<char>) -> Seq<char> {
    if w.len() > 0 && w[0] == '+' {
        w.drop_first()
    } else {
        w
    }
}

/// What reading `w` as a `u128` numeral gives: an optional `+`, then at least one
/// decimal digit, with a value that fits.
pub open spec fn numeral_value(w: Seq<char>) -> Option<u128> {
    let ds = unsigned_digits(w);
    if ds.len() > 0 && all_digits(ds) && digits_value(ds) <= u128::MAX {
        Some(digits_value(ds) as u128)
    } else {
        None
    }
}

proof fn lemma_digits_value_prefix(ds: Seq<char>, i: int)
    requires
        0 <= i <= ds.len(),
    ensures
        digits_value(ds.take(i)) <= digits_value(ds),
    decreases ds.len() - i,
{
    if i < ds.len() {
        lemma_digits_value_prefix(ds, i + 1);
        assert(ds.take(i + 1).drop_last() =~= ds.take(i));
    } else {
        assert(ds.take(i) =~= ds);
    }
}

/// Reads a decimal `u128` numeral.
pub fn parse_numeral(w: &[char]) -> (r: Option<u128>)
    ensures
        r == numeral_value(w@),
{
    let start: usize = if w.len() > 0 && w[0] == '+' {
        1
    } else {
        0
    };
    let ghost ds = unsigned_digits(w@);
    assert(ds =~= w@.subrange(start as int, w@.len() as int));
    if start >= w.len() {
        return None;
    }
    let mut value: u128 = 0;
    let mut i: usize = start;
    while i < w.len()
        invariant
            start <= i <= w.len(),
            ds =~= w@.subrange(start as int, w@.len() as int),
            ds == unsigned_digits(w@),
            all_digits(ds.take(i - start)),
            value as nat == digits_value(ds.take(i - start)),
        decreases w.len() - i,
    {
        let c = w[i];
        assert(ds.take(i + 1 - start).drop_last() =~= ds.take(i - start));
        assert(ds[i - start] == c);
        if !('0' <= c && c <= '9') {
            assert(!is_digit(ds[i - start]));
            return None;
        }
        let d: u128 = ((c as u32) - 48) as u128;
        assert(digits_value(ds.take(i + 1 - start)) == value * 10 + d);
        match value.checked_mul(10) {
            Some(m) => match m.checked_add(d) {
                Some(v) => {
                    value = v;
                },
                None => {
                    proof {
                        lemma_digits_value_prefix(ds, i + 1 - start);
                    }
                    return None;
                },
            },
            None => {
                proof {
                    lemma_digits_value_prefix(ds, i + 1 - start);
                }
                return None;
            },
        }
        i = i + 1;
    }
    assert(ds.take(w.len() - start) =~= ds);
    Some(value)
}

/// Appends the decimal numeral of `n`.
pub fn push_decimal(out: &mut Vec<char>, n: u128)
    ensures
        final(out)@ == old(out)@ + decimal(n as nat),
    decreases n,
{
    if n >= 10 {
        push_decimal(out, n / 10);
    }
    let d: u8 = (n % 10) as u8;
    out.push((d + 48) as char);
    assert(final(out)@ =~= old(out)@ + decimal(n as nat));
}

/// Appends the characters of `s`.
pub fn push_str(out: &mut Vec<char>, s: &str)
    ensures
        final(out)@ == old(out)@ + s@,
{
    let ghost start = out@;
    for c in it: s.chars()
        invariant
            out@ == start + it.seq().take(it.index() as int),
    {
        out.push(c);
    }
    assert(out@ =~= start + s@);
}

/// The characters of `s`, in order.
pub fn chars_of(s: &str) -> (r: Vec<char>)
    ensures
        r@ == s@,
{
    let mut r: Vec<char> = Vec::new();
    push_str(&mut r, s);
    assert(r@ =~= s@);
    r
}

/// Relies on `String`'s `FromIterator<char>`: the string holds the characters in order.
#[verifier::external_body]
pub(crate) fn text_of(cs: &[char]) -> (r: String)
    ensures
        r@ == cs@,
{
    cs.iter().collect()
}

} // verus!

verus! {

/// The text of a diagnostic tied to a source line.
pub open spec fn line_error_text(line: nat, reason: Seq<char>) -> Seq<char> {
    "Line: "@ + decimal(line) + ", error: "@ + reason
}

/// Writes `Line: <line>, error: <reason>`.
pub fn line_error(line: usize, reason: &[char]) -> (r: String)
    ensures
        r@ == line_error_text(line as nat, reason@),
{
    let mut out: Vec<char> = Vec::new();
    push_str(&mut out, "Line: ");
    push_decimal(&mut out, line as u128);
    push_str(&mut out, ", error: ");
    let ghost before = out@;
    let mut i: usize = 0;
    while i < reason.len()
        invariant
            i <= reason.len(),
            out@ == before + reason@.take(i as int),
        decreases reason.len() - i,
    {
        out.push(reason[i]);
        assert(reason@.take(i + 1) =~= reason@.take(i as int).push(reason[i as int]));
        i = i + 1;
    }
    assert(reason@.take(i as int) =~= reason@);
    assert(out@ =~= line_error_text(line as nat, reason@));
    text_of(out.as_slice())
}

} // verus!
