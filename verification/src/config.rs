//! Reading numbers out of the bot's configuration values.
use vstd::prelude::*;
use crate::text::{chars_of, decimal, digit_char};

verus! {

/// `c` is an ASCII decimal digit.
pub open spec fn is_digit(c: char) -> bool {
    '0' <= c && c <= '9'
}

/// The number the decimal digits `ds` spell.
pub open spec fn digits_value(ds: Seq<char>) -> nat
    decreases ds.len(),
{
    if ds.len() == 0 {
        0
    } else {
        digits_value(ds.drop_last()) * 10 + ((ds.last() as u32) - ('0' as u32)) as nat
    }
}

/// The digits of `s` once an optional leading "+" is dropped.
pub open spec fn unsigned_digits(s: Seq<char>) -> Seq<char> {
    if s.len() > 0 && s[0] == '+' {
        s.drop_first()
    } else {
        s
    }
}

/// What `str::parse` gives for an unsigned integer type whose largest
/// value is `max`: an optional "+" and at least one decimal digit, with a
/// value of at most `max`; anything else is an error (`None`).
pub open spec fn parse_unsigned_spec(s: Seq<char>, max: nat) -> Option<nat> {
    let ds = unsigned_digits(s);
    if ds.len() > 0 && (forall|i: int| 0 <= i < ds.len() ==> is_digit(#[trigger] ds[i]))
        && digits_value(ds) <= max {
        Some(digits_value(ds))
    } else {
        None
    }
}

proof fn lemma_digits_value_monotone(ds: Seq<char>, k: int)
    requires
        0 <= k <= ds.len(),
        forall|i: int| 0 <= i < ds.len() ==> is_digit(#[trigger] ds[i]),
    ensures
        digits_value(ds.take(k)) <= digits_value(ds),
    decreases ds.len() - k,
{
    if k < ds.len() {
        lemma_digits_value_monotone(ds, k + 1);
        assert(ds.take(k + 1).drop_last() =~= ds.take(k));
    } else {
        assert(ds.take(k) =~= ds);
    }
}

/// Parses `s` as an unsigned number no larger than `max`.
pub fn parse_unsigned(s: &str, max: u64) -> (n: Option<u64>)
    ensures
        match parse_unsigned_spec(s@, max as nat) {
            Some(v) => n == Some(v as u64),
            None => n is None,
        },
{
    let cs = chars_of(s);
    let start: usize = if cs.len() > 0 && cs[0] == '+' { 1 } else { 0 };
    let ghost ds = unsigned_digits(s@);
    assert(ds =~= cs@.subrange(start as int, cs@.len() as int));
    if start >= cs.len() {
        return None;
    }
    let mut value: u64 = 0;
    let mut i: usize = start;
    while i < cs.len()
        invariant
            cs@ == s@,
            ds == unsigned_digits(s@),
            ds == cs@.subrange(start as int, cs@.len() as int),
            start <= i <= cs@.len(),
            forall|j: int| 0 <= j < i - start ==> is_digit(#[trigger] ds[j]),
            value as nat == digits_value(ds.take(i - start)),
            value <= max,
        decreases cs@.len() - i,
    {
        let c = cs[i];
        assert(ds.take(i - start + 1).drop_last() =~= ds.take(i - start));
        assert(ds[i - start] == c);
        if !('0' <= c && c <= '9') {
            assert(!is_digit(ds[i - start]));
            return None;
        }
        let d = (c as u32 - '0' as u32) as u64;
        if d > max || value > (max - d) / 10 {
            proof {
                assert(digits_value(ds.take(i - start + 1)) == value * 10 + d);
                if d <= max {
                    assert((value as int) * 10 + d > max) by (nonlinear_arith)
                        requires value > (max - d) / 10, d <= max;
                }
                if forall|j: int| 0 <= j < ds.len() ==> is_digit(#[trigger] ds[j]) {
                    lemma_digits_value_monotone(ds, i - start + 1);
                }
            }
            return None;
        }
        proof {
            assert(value * 10 + d <= max) by (nonlinear_arith)
                requires value <= (max - d) / 10, d <= max;
        }
        value = value * 10 + d;
        i = i + 1;
    }
    assert(ds.take(i - start) =~= ds);
    Some(value)
}


/// `s` read as a `u64`, as `str::parse::<u64>` reads it (the osu! client
/// id).
pub fn parse_u64(s: &str) -> (n: Option<u64>)
    ensures
        match parse_unsigned_spec(s@, u64::MAX as nat) {
            Some(v) => n == Some(v as u64),
            None => n is None,
        },
{
    parse_unsigned(s, u64::MAX)
}

/// `s` read as a `u16`, as `str::parse::<u16>` reads it (the Ollama
/// port).
pub fn parse_u16(s: &str) -> (n: Option<u16>)
    ensures
        match parse_unsigned_spec(s@, u16::MAX as nat) {
            Some(v) => n == Some(v as u16),
            None => n is None,
        },
{
    match parse_unsigned(s, 65535) {
        Some(v) => Some(v as u16),
        None => None,
    }
}


proof fn lemma_digit_char(d: nat)
    requires
        d < 10,
    ensures
        is_digit(digit_char(d)),
        (digit_char(d) as u32) - ('0' as u32) == d,
{
}

proof fn lemma_decimal_digits(n: nat)
    ensures
        decimal(n).len() > 0,
        forall|i: int| 0 <= i < decimal(n).len() ==> is_digit(#[trigger] decimal(n)[i]),
        digits_value(decimal(n)) == n,
        decimal(n)[0] != '+',
    decreases n,
{
    lemma_digit_char(n % 10);
    if n < 10 {
        assert(decimal(n).drop_last() =~= Seq::<char>::empty());
        assert(n % 10 == n);
        assert(digits_value(decimal(n)) == digits_value(Seq::<char>::empty()) * 10 + ((digit_char(n) as u32) - ('0' as u32)) as nat);
    } else {
        lemma_decimal_digits(n / 10);
        let d = decimal(n / 10);
        let c = digit_char(n % 10);
        assert(decimal(n) == d.push(c));
        assert(decimal(n).drop_last() =~= d);
        assert(decimal(n).last() == c);
        assert(digits_value(decimal(n)) == digits_value(d) * 10 + ((c as u32) - ('0' as u32)) as nat);
        assert(digits_value(d) == n / 10);
        assert((n / 10) * 10 + n % 10 == n);
        assert forall|i: int| 0 <= i < decimal(n).len() implies is_digit(#[trigger] decimal(n)[i]) by {
            if i < d.len() {
                assert(decimal(n)[i] == d[i]);
            }
        }
        assert(decimal(n)[0] == d[0]);
    }
}

/// Reading back a number written in decimal gives the number: what
/// `decimal_string` writes, `parse_unsigned` reads, for every number up
/// to the bound.
pub proof fn law_parse_reads_decimal(n: nat, max: nat)
    requires
        n <= max,
    ensures
        parse_unsigned_spec(decimal(n), max) == Some(n),
{
    lemma_decimal_digits(n);
    assert(unsigned_digits(decimal(n)) == decimal(n));
}

} // verus!
