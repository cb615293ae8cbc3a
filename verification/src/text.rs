//! Numbers as text.

use vstd::prelude::*;
use vstd::string::StringExecFns;

verus! {

/// The digit `n`, in upper case.
pub open spec fn digit_text(n: int) -> Seq<char> {
    if n == 0 {
        "0"@
    } else if n == 1 {
        "1"@
    } else if n == 2 {
        "2"@
    } else if n == 3 {
        "3"@
    } else if n == 4 {
        "4"@
    } else if n == 5 {
        "5"@
    } else if n == 6 {
        "6"@
    } else if n == 7 {
        "7"@
    } else if n == 8 {
        "8"@
    } else if n == 9 {
        "9"@
    } else if n == 10 {
        "A"@
    } else if n == 11 {
        "B"@
    } else if n == 12 {
        "C"@
    } else if n == 13 {
        "D"@
    } else if n == 14 {
        "E"@
    } else {
        "F"@
    }
}

/// `n` in decimal.
pub open spec fn decimal_text(n: nat) -> Seq<char>
    decreases n,
{
    if n < 10 {
        digit_text(n as int)
    } else {
        decimal_text(n / 10) + digit_text((n % 10) as int)
    }
}

/// `n` as two hexadecimal digits.
pub open spec fn hex_text(n: u8) -> Seq<char> {
    digit_text((n / 16) as int) + digit_text((n % 16) as int)
}

fn digit(n: u8) -> (s: &'static str)
    requires
        n < 16,
    ensures
        s@ == digit_text(n as int),
{
    match n {
        0 => "0",
        1 => "1",
        2 => "2",
        3 => "3",
        4 => "4",
        5 => "5",
        6 => "6",
        7 => "7",
        8 => "8",
        9 => "9",
        10 => "A",
        11 => "B",
        12 => "C",
        13 => "D",
        14 => "E",
        _ => "F",
    }
}

/// Appends `n` in decimal.
pub fn append_decimal(out: &mut String, n: usize)
    ensures
        final(out)@ == old(out)@ + decimal_text(n as nat),
    decreases n,
{
    if n >= 10 {
        append_decimal(out, n / 10);
        let ghost mid = out@;
        out.append(digit((n % 10) as u8));
        assert(old(out)@ + decimal_text((n / 10) as nat) + digit_text((n % 10) as int) =~= old(
            out,
        )@ + (decimal_text((n / 10) as nat) + digit_text((n % 10) as int)));
    } else {
        out.append(digit(n as u8));
    }
}

/// Appends `n` as two hexadecimal digits.
pub fn append_hex(out: &mut String, n: u8)
    ensures
        final(out)@ == old(out)@ + hex_text(n),
{
    let ghost before = out@;
    out.append(digit(n / 16));
    out.append(digit(n % 16));
    assert(out@ =~= before + hex_text(n));
}

/// What a digit counts.
pub open spec fn digit_value(c: char) -> int {
    if '0' <= c <= '9' {
        c as int - '0' as int
    } else if 'A' <= c <= 'F' {
        10 + (c as int - 'A' as int)
    } else {
        -1
    }
}

/// What digits to a base count, highest first.
pub open spec fn digits_value(s: Seq<char>, base: int) -> int
    decreases s.len(),
{
    if s.len() == 0 {
        0
    } else {
        base * digits_value(s.drop_last(), base) + digit_value(s.last())
    }
}

proof fn lemma_digit(n: int)
    requires
        0 <= n < 16,
    ensures
        digit_text(n).len() == 1,
        digit_value(digit_text(n)[0]) == n,
{
    reveal_strlit("0");
    reveal_strlit("1");
    reveal_strlit("2");
    reveal_strlit("3");
    reveal_strlit("4");
    reveal_strlit("5");
    reveal_strlit("6");
    reveal_strlit("7");
    reveal_strlit("8");
    reveal_strlit("9");
    reveal_strlit("A");
    reveal_strlit("B");
    reveal_strlit("C");
    reveal_strlit("D");
    reveal_strlit("E");
    reveal_strlit("F");
}

/// A number in decimal counts the number, in digits up to nine and without a zero in
/// front of others.
pub proof fn decimal_text_counts_the_number(n: nat)
    ensures
        decimal_text(n).len() > 0,
        digits_value(decimal_text(n), 10) == n,
        forall|i: int|
            0 <= i < decimal_text(n).len() ==> 0 <= digit_value(#[trigger] decimal_text(n)[i]) <= 9,
        n > 0 ==> digit_value(decimal_text(n)[0]) > 0,
    decreases n,
{
    let s = decimal_text(n);
    lemma_digit((n % 10) as int);
    if n >= 10 {
        decimal_text_counts_the_number(n / 10);
        assert(s.drop_last() =~= decimal_text(n / 10));
        assert(s.last() == digit_text((n % 10) as int)[0]);
        assert(digits_value(s, 10) == 10 * digits_value(s.drop_last(), 10) + digit_value(s.last()));
        assert(s[0] == decimal_text(n / 10)[0]);
        assert forall|i: int| 0 <= i < s.len() implies 0 <= digit_value(#[trigger] s[i]) <= 9 by {
            if i < s.len() - 1 {
                assert(s[i] == decimal_text(n / 10)[i]);
            }
        }
    } else {
        lemma_digit(n as int);
        assert(s.drop_last() =~= Seq::empty());
        assert(digits_value(s.drop_last(), 10) == 0);
        assert(digits_value(s, 10) == 10 * digits_value(s.drop_last(), 10) + digit_value(s.last()));
    }
}

/// A byte in hexadecimal counts the byte, in two digits.
pub proof fn hex_text_counts_the_byte(n: u8)
    ensures
        hex_text(n).len() == 2,
        digits_value(hex_text(n), 16) == n,
{
    let s = hex_text(n);
    lemma_digit((n / 16) as int);
    lemma_digit((n % 16) as int);
    assert(s.drop_last() =~= digit_text((n / 16) as int));
    let t = s.drop_last();
    assert(t.drop_last() =~= Seq::empty());
    assert(digits_value(t.drop_last(), 16) == 0);
    assert(digits_value(t, 16) == 16 * digits_value(t.drop_last(), 16) + digit_value(t.last()));
    assert(digits_value(s, 16) == 16 * digits_value(t, 16) + digit_value(s.last()));
}

} // verus!
