//! Verified text building: decimal formatting and JSON string escaping,
//! used by the ping assembler.

use vstd::prelude::*;
use vstd::string::StrSliceExecFns;

verus! {

/// Relies on `String::push`: appends exactly the one character.
pub assume_specification[ String::push ](s: &mut String, c: char)
    ensures
        final(s)@ == old(s)@.push(c),
;

/// The decimal digits of `n`, most significant first.
pub open spec fn dec_of(n: nat) -> Seq<char>
    decreases n,
{
    if n < 10 {
        seq![dec_digit(n as int)]
    } else {
        dec_of(n / 10) + seq![dec_digit((n % 10) as int)]
    }
}

/// The digit character for `0 <= n <= 9`.
pub open spec fn dec_digit(n: int) -> char {
    if n == 0 {
        '0'
    } else if n == 1 {
        '1'
    } else if n == 2 {
        '2'
    } else if n == 3 {
        '3'
    } else if n == 4 {
        '4'
    } else if n == 5 {
        '5'
    } else if n == 6 {
        '6'
    } else if n == 7 {
        '7'
    } else if n == 8 {
        '8'
    } else {
        '9'
    }
}

/// The decimal rendering of a signed 32-bit value: a minus sign, then the
/// digits of the magnitude.
pub open spec fn dec_of_i32(n: i32) -> Seq<char> {
    if n >= 0 {
        dec_of(n as nat)
    } else {
        seq!['-'] + dec_of((-(n as int)) as nat)
    }
}

fn dec_digit_char(n: u64) -> (c: char)
    requires
        n <= 9,
    ensures
        c == dec_digit(n as int),
{
    match n {
        0 => '0',
        1 => '1',
        2 => '2',
        3 => '3',
        4 => '4',
        5 => '5',
        6 => '6',
        7 => '7',
        8 => '8',
        _ => '9',
    }
}

/// Appends the decimal digits of `n` to `out`.
pub fn append_dec(out: &mut String, n: u64)
    ensures
        final(out)@ == old(out)@ + dec_of(n as nat),
    decreases n,
{
    if n < 10 {
        out.push(dec_digit_char(n));
    } else {
        append_dec(out, n / 10);
        out.push(dec_digit_char(n % 10));
        proof {
            assert(old(out)@ + dec_of((n / 10) as nat) + seq![dec_digit((n % 10) as int)] =~= old(
                out,
            )@ + dec_of(n as nat));
        }
    }
}

/// Appends the decimal rendering of a signed 32-bit value to `out`.
pub fn append_dec_i32(out: &mut String, n: i32)
    ensures
        final(out)@ == old(out)@ + dec_of_i32(n),
{
    if n >= 0 {
        append_dec(out, n as u64);
    } else {
        out.push('-');
        let magnitude: u64 = (-(n as i64)) as u64;
        append_dec(out, magnitude);
        proof {
            assert(old(out)@.push('-') + dec_of(magnitude as nat) =~= old(out)@ + dec_of_i32(n));
        }
    }
}

/// How one character appears inside a JSON string literal.
pub open spec fn escaped_char(c: char) -> Seq<char> {
    if c == '"' {
        seq!['\\', '"']
    } else if c == '\\' {
        seq!['\\', '\\']
    } else if c == '\n' {
        seq!['\\', 'n']
    } else if c == '\r' {
        seq!['\\', 'r']
    } else if c == '\t' {
        seq!['\\', 't']
    } else if (c as int) < 32 {
        seq!['\\', 'u', '0', '0', dec_digit((c as int) / 16), hex_digit((c as int) % 16)]
    } else {
        seq![c]
    }
}

/// The hexadecimal digit character for `0 <= n <= 15`.
pub open spec fn hex_digit(n: int) -> char {
    if n < 10 {
        dec_digit(n)
    } else if n == 10 {
        'a'
    } else if n == 11 {
        'b'
    } else if n == 12 {
        'c'
    } else if n == 13 {
        'd'
    } else if n == 14 {
        'e'
    } else {
        'f'
    }
}

/// The body of a JSON string literal holding `s`.
pub open spec fn escape_of(s: Seq<char>) -> Seq<char>
    decreases s.len(),
{
    if s.len() == 0 {
        s
    } else {
        escape_of(s.drop_last()) + escaped_char(s.last())
    }
}

fn hex_digit_char(n: u32) -> (c: char)
    requires
        n <= 15,
    ensures
        c == hex_digit(n as int),
{
    match n {
        10 => 'a',
        11 => 'b',
        12 => 'c',
        13 => 'd',
        14 => 'e',
        15 => 'f',
        _ => dec_digit_char(n as u64),
    }
}

/// Appends `s` escaped for inclusion in a JSON string literal to `out`.
pub fn append_escaped(out: &mut String, s: &str)
    ensures
        final(out)@ == old(out)@ + escape_of(s@),
{
    let n = s.unicode_len();
    let mut i: usize = 0;
    proof {
        assert(s@.take(0) =~= Seq::<char>::empty());
        assert(out@ + escape_of(s@.take(0)) =~= out@);
    }
    while i < n
        invariant
            n == s@.len(),
            i <= n,
            out@ == old(out)@ + escape_of(s@.take(i as int)),
        decreases n - i,
    {
        let c = s.get_char(i);
        proof {
            assert(s@.take(i + 1).drop_last() =~= s@.take(i as int));
            assert(s@.take(i + 1).last() == s@[i as int]);
        }
        let ghost before = out@;
        if c == '"' {
            out.push('\\');
            out.push('"');
        } else if c == '\\' {
            out.push('\\');
            out.push('\\');
        } else if c == '\n' {
            out.push('\\');
            out.push('n');
        } else if c == '\r' {
            out.push('\\');
            out.push('r');
        } else if c == '\t' {
            out.push('\\');
            out.push('t');
        } else if (c as u32) < 32 {
            out.push('\\');
            out.push('u');
            out.push('0');
            out.push('0');
            out.push(dec_digit_char(((c as u32) / 16) as u64));
            out.push(hex_digit_char((c as u32) % 16));
        } else {
            out.push(c);
        }
        proof {
            assert(out@ =~= before + escaped_char(c));
            assert(out@ =~= old(out)@ + escape_of(s@.take(i + 1)));
        }
        i += 1;
    }
    proof {
        assert(s@.take(n as int) =~= s@);
    }
}

/// Appends a complete JSON string literal holding `s` to `out`.
pub fn append_quoted(out: &mut String, s: &str)
    ensures
        final(out)@ == old(out)@ + quoted_of(s@),
{
    out.push('"');
    append_escaped(out, s);
    out.push('"');
    proof {
        assert(out@ =~= old(out)@ + quoted_of(s@));
    }
}

/// A complete JSON string literal holding `s`.
pub open spec fn quoted_of(s: Seq<char>) -> Seq<char> {
    seq!['"'] + escape_of(s) + seq!['"']
}

} // verus!
