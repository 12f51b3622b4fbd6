//! Decimal text of a process id, the default content of a marker file.

use vstd::prelude::*;

verus! {

/// The ASCII code of the decimal digit `d`.
pub open spec fn digit_char(d: nat) -> u8
    recommends
        d < 10,
{
    (48 + d) as u8
}

/// The decimal digits of `n` in ASCII, most significant first, without leading
/// zeros (`0` itself is the single digit `0`).
pub open spec fn decimal_digits(n: nat) -> Seq<u8>
    decreases n,
{
    if n < 10 {
        seq![digit_char(n)]
    } else {
        decimal_digits(n / 10).push(digit_char(n % 10))
    }
}

/// The number that a sequence of ASCII decimal digits denotes.
pub open spec fn decimal_value(digits: Seq<u8>) -> nat
    decreases digits.len(),
{
    if digits.len() == 0 {
        0
    } else {
        (decimal_value(digits.drop_last()) * 10 + (digits.last() - 48)) as nat
    }
}

/// The default content of a marker file: the process id in decimal, then a
/// line feed.
pub open spec fn pid_line(pid: u32) -> Seq<u8> {
    decimal_digits(pid as nat).push(10u8)
}

/// Every byte of `decimal_digits(n)` is an ASCII digit, there are at most ten
/// of them for a 32-bit number, and reading them back gives `n`.
pub proof fn lemma_decimal_digits(n: nat)
    ensures
        decimal_digits(n).len() >= 1,
        n <= u32::MAX ==> decimal_digits(n).len() <= 10,
        forall|i: int|
            0 <= i < decimal_digits(n).len() ==> 48 <= #[trigger] decimal_digits(n)[i] <= 57,
        decimal_value(decimal_digits(n)) == n,
    decreases n,
{
    reveal_with_fuel(decimal_digits, 11);
    if n >= 10 {
        lemma_decimal_digits(n / 10);
        let head = decimal_digits(n / 10);
        let all = head.push(digit_char(n % 10));
        assert(all.drop_last() =~= head);
        assert(all.last() == digit_char(n % 10));
        assert(decimal_value(all) == decimal_value(head) * 10 + (all.last() - 48));
    } else {
        let one = seq![digit_char(n)];
        assert(one.drop_last() =~= Seq::<u8>::empty());
        assert(decimal_value(one.drop_last()) == 0);
    }
}

/// Appends the decimal digits of `n` to `out`.
fn push_decimal(n: u32, out: &mut Vec<u8>)
    ensures
        final(out)@ == old(out)@ + decimal_digits(n as nat),
    decreases n,
{
    if n >= 10 {
        push_decimal(n / 10, out);
    }
    let digit: u8 = 48 + (n % 10) as u8;
    out.push(digit);
    assert(out@ =~= old(out)@ + decimal_digits(n as nat));
}

/// The default content of a marker file for the process `pid`: its decimal
/// digits followed by a line feed.
pub fn pid_contents(pid: u32) -> (line: Vec<u8>)
    ensures
        line@ == pid_line(pid),
{
    let mut line: Vec<u8> = Vec::new();
    push_decimal(pid, &mut line);
    line.push(10u8);
    assert(line@ =~= pid_line(pid));
    line
}

} // verus!
