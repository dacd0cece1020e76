//! Numbers as they appear in error messages.

use vstd::prelude::*;

use crate::media::VideoError;

verus! {

/// The hexadecimal digit for `d`, in upper case.
pub open spec fn digit(d: nat) -> Seq<char> {
    if d == 0 {
        "0"@
    } else if d == 1 {
        "1"@
    } else if d == 2 {
        "2"@
    } else if d == 3 {
        "3"@
    } else if d == 4 {
        "4"@
    } else if d == 5 {
        "5"@
    } else if d == 6 {
        "6"@
    } else if d == 7 {
        "7"@
    } else if d == 8 {
        "8"@
    } else if d == 9 {
        "9"@
    } else if d == 10 {
        "A"@
    } else if d == 11 {
        "B"@
    } else if d == 12 {
        "C"@
    } else if d == 13 {
        "D"@
    } else if d == 14 {
        "E"@
    } else {
        "F"@
    }
}

/// The digits of `n` to the base `base`, most significant first and without
/// leading zeros.
pub open spec fn digits(n: nat, base: nat) -> Seq<char>
    decreases n,
{
    if base < 2 || n < base {
        digit(n)
    } else {
        proof {
            assert(n / base < n) by (nonlinear_arith)
                requires
                    2 <= base <= n,
            ;
        }
        digits(n / base, base) + digit(n % base)
    }
}

/// `n` in decimal notation, with a minus sign where it is negative.
pub open spec fn decimal(n: int) -> Seq<char> {
    if n < 0 {
        "-"@ + digits((-n) as nat, 10)
    } else {
        digits(n as nat, 10)
    }
}

/// The 32-bit pattern of `n` in hexadecimal notation, with its prefix.
pub open spec fn hex32(n: i32) -> Seq<char> {
    "0x"@ + digits(bits32(n), 16)
}

/// The 32-bit two's complement pattern of `n`, read as a natural number.
pub open spec fn bits32(n: i32) -> nat {
    if n < 0 {
        (n + 0x1_0000_0000) as nat
    } else {
        n as nat
    }
}

fn push_digit(out: &mut String, d: u32)
    requires
        d < 16,
    ensures
        final(out)@ == old(out)@ + digit(d as nat),
{
    let text = match d {
        0 => "0",
        1 => "1",
        2 => "2",
        3 => "3",
        4 => "4",
        5 => "5",
        6 => "6",
        7 => "7",
        8 => "8",
        9 => "9",
        10 => "A",
        11 => "B",
        12 => "C",
        13 => "D",
        14 => "E",
        _ => "F",
    };
    out.append(text);
}

fn push_digits(out: &mut String, n: u32, base: u32)
    requires
        2 <= base <= 16,
    ensures
        final(out)@ == old(out)@ + digits(n as nat, base as nat),
    decreases n,
{
    if n < base {
        push_digit(out, n);
    } else {
        assert(n / base < n) by (nonlinear_arith)
            requires
                2 <= base <= n,
        ;
        push_digits(out, n / base, base);
        push_digit(out, n % base);
        assert(out@ =~= old(out)@ + (digits((n / base) as nat, base as nat) + digit(
            (n % base) as nat,
        )));
    }
}

/// Appends `n` in decimal notation.
pub fn push_decimal(out: &mut String, n: i32)
    ensures
        final(out)@ == old(out)@ + decimal(n as int),
{
    if n < 0 {
        out.append("-");
        let magnitude: u32 = (-(n as i64)) as u32;
        push_digits(out, magnitude, 10);
        assert(out@ =~= old(out)@ + ("-"@ + digits((-n) as nat, 10)));
    } else {
        push_digits(out, n as u32, 10);
    }
}

/// Appends the 32-bit pattern of `n` in hexadecimal notation.
pub fn push_hex32(out: &mut String, n: i32)
    ensures
        final(out)@ == old(out)@ + hex32(n),
{
    out.append("0x");
    let pattern: u32 = if n < 0 {
        (n as i64 + 0x1_0000_0000) as u32
    } else {
        n as u32
    };
    push_digits(out, pattern, 16);
    assert(out@ =~= old(out)@ + hex32(n));
}

/// An error described by `prefix` and a status in decimal notation.
pub fn error_with_status(prefix: &str, status: i32) -> (error: VideoError)
    ensures
        error.text() == prefix@ + decimal(status as int),
{
    let mut message = prefix.to_owned();
    push_decimal(&mut message, status);
    VideoError::Codec(message)
}

/// An error described by `prefix` and a result code in hexadecimal notation.
pub fn error_with_code(prefix: &str, code: i32) -> (error: VideoError)
    ensures
        error.text() == prefix@ + hex32(code),
{
    let mut message = prefix.to_owned();
    push_hex32(&mut message, code);
    VideoError::Codec(message)
}

/// The number that a hexadecimal digit stands for.
pub open spec fn digit_value(c: char) -> int {
    if '0' <= c && c <= '9' {
        c as int - '0' as int
    } else {
        c as int - 'A' as int + 10
    }
}

/// The number that a text of digits to the base `base` stands for.
pub open spec fn read_digits(text: Seq<char>, base: int) -> int
    decreases text.len(),
{
    if text.len() == 0 {
        0
    } else {
        read_digits(text.drop_last(), base) * base + digit_value(text.last())
    }
}

proof fn lemma_digit(d: nat)
    requires
        d < 16,
    ensures
        digit(d).len() == 1,
        digit_value(digit(d)[0]) == d,
        d == 0 <==> digit(d)[0] == '0',
        digit(d)[0] != '-',
        digit(d)[0] != 'x',
{
    reveal_strlit("0");
    reveal_strlit("1");
    reveal_strlit("2");
    reveal_strlit("3");
    reveal_strlit("4");
    reveal_strlit("5");
    reveal_strlit("6");
    reveal_strlit("7");
    reveal_strlit("8");
    reveal_strlit("9");
    reveal_strlit("A");
    reveal_strlit("B");
    reveal_strlit("C");
    reveal_strlit("D");
    reveal_strlit("E");
    reveal_strlit("F");
}

/// The digits of a number stand for that number, and they start with a zero
/// only where that is all.
pub proof fn lemma_digits_read_back(n: nat, base: nat)
    requires
        2 <= base <= 16,
    ensures
        read_digits(digits(n, base), base as int) == n,
        digits(n, base).len() > 0,
        digits(n, base)[0] == '0' ==> n == 0,
        n == 0 ==> digits(n, base).len() == 1,
        digits(n, base)[0] != '-',
    decreases n,
{
    reveal_with_fuel(read_digits, 2);
    if n < base {
        lemma_digit(n);
        let text = digits(n, base);
        assert(text.drop_last() =~= Seq::empty());
        assert(read_digits(text.drop_last(), base as int) == 0);
        assert(0 * base == 0) by (nonlinear_arith);
    } else {
        assert(n / base < n && n / base > 0) by (nonlinear_arith)
            requires
                2 <= base <= n,
        ;
        vstd::arithmetic::div_mod::lemma_fundamental_div_mod(n as int, base as int);
        vstd::arithmetic::div_mod::lemma_mod_bound(n as int, base as int);
        assert((n / base) * base == base * (n / base)) by (nonlinear_arith);
        lemma_digits_read_back(n / base, base);
        lemma_digit(n % base);
        let text = digits(n, base);
        assert(text.drop_last() =~= digits(n / base, base));
        assert(text[0] == digits(n / base, base)[0]);
    }
}

/// A status in decimal notation stands for the status: digits alone, behind a
/// minus sign where it is negative.
pub proof fn lemma_decimal_reads_back(n: int)
    ensures
        n >= 0 ==> read_digits(decimal(n), 10) == n && decimal(n)[0] != '-',
        n < 0 ==> decimal(n)[0] == '-' && read_digits(decimal(n).skip(1), 10) == -n,
{
    reveal_strlit("-");
    if n < 0 {
        lemma_digits_read_back((-n) as nat, 10);
        assert(decimal(n).skip(1) =~= digits((-n) as nat, 10));
    } else {
        lemma_digits_read_back(n as nat, 10);
    }
}

/// A result code in hexadecimal notation stands, behind 0x, for its 32-bit
/// pattern: the code itself, or 2^32 more where it is negative.
pub proof fn lemma_hex_reads_back(n: i32)
    ensures
        hex32(n)[0] == '0',
        hex32(n)[1] == 'x',
        read_digits(hex32(n).skip(2), 16) == if n < 0 {
            n + 0x1_0000_0000
        } else {
            n as int
        },
{
    reveal_strlit("0x");
    lemma_digits_read_back(bits32(n), 16);
    assert(hex32(n).skip(2) =~= digits(bits32(n), 16));
}

} // verus!
