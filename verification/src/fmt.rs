//! Rendering of numbers into text, with the exact digit sequences stated
//! in the contracts.
use vstd::prelude::*;

verus! {

/// The character of one decimal or hexadecimal digit value.
pub open spec fn digit_char(d: int) -> char {
    "0123456789ABCDEF"@[d]
}

/// The decimal digits of a non-negative number, most significant first.
pub open spec fn dec_chars(n: int) -> Seq<char>
    decreases n,
{
    if n < 10 {
        seq![digit_char(n)]
    } else {
        dec_chars(n / 10).push(digit_char(n % 10))
    }
}

/// The decimal rendering of a signed number: a minus sign before the
/// digits of its magnitude.
pub open spec fn dec_chars_signed(n: int) -> Seq<char> {
    if n < 0 {
        seq!['-'] + dec_chars(-n)
    } else {
        dec_chars(n)
    }
}

/// The hexadecimal digits of a non-negative number, most significant
/// first.
pub open spec fn hex_chars(n: int) -> Seq<char>
    decreases n,
{
    if n < 16 {
        seq![digit_char(n)]
    } else {
        hex_chars(n / 16).push(digit_char(n % 16))
    }
}

/// A run of one repeated character.
pub open spec fn char_run(c: char, k: int) -> Seq<char> {
    Seq::new(
        if k < 0 {
            0nat
        } else {
            k as nat
        },
        |i: int| c,
    )
}

/// `s` padded on the left with `pad` up to width `w`.
pub open spec fn pad_left(s: Seq<char>, pad: char, w: int) -> Seq<char> {
    char_run(pad, w - s.len()) + s
}

/// The digit alphabet.
fn digit_charset() -> (r: &'static str)
    ensures
        r@ == "0123456789ABCDEF"@,
        r@.len() == 16,
        r.is_ascii(),
{
    let cs = "0123456789ABCDEF";
    proof {
        reveal_strlit("0123456789ABCDEF");
    }
    cs
}

/// Appends one digit character to a string.
fn append_digit(s: &mut String, d: u32)
    requires
        d < 16,
    ensures
        final(s)@ == old(s)@.push(digit_char(d as int)),
{
    let cs = digit_charset();
    let piece = cs.substring_ascii(d as usize, d as usize + 1);
    s.append(piece);
    proof {
        assert(final(s)@ =~= old(s)@.push(digit_char(d as int)));
    }
}

/// Renders a number in decimal.
pub fn format_u64(n: u64) -> (r: String)
    ensures
        r@ == dec_chars(n as int),
    decreases n,
{
    if n < 10 {
        let mut s = String::new();
        append_digit(&mut s, n as u32);
        proof {
            assert(s@ =~= seq![digit_char(n as int)]);
        }
        s
    } else {
        let mut s = format_u64(n / 10);
        append_digit(&mut s, (n % 10) as u32);
        s
    }
}

/// Renders a signed number in decimal.
pub fn format_i64(n: i64) -> (r: String)
    ensures
        r@ == dec_chars_signed(n as int),
{
    if n >= 0 {
        format_u64(n as u64)
    } else {
        let mut s = String::new();
        s.append("-");
        let mag = format_u64((-(n as i128)) as u64);
        s.append(mag.as_str());
        proof {
            reveal_strlit("-");
            assert(s@ =~= seq!['-'] + dec_chars(-(n as int)));
        }
        s
    }
}

/// Renders a number in hexadecimal, upper case.
pub fn format_hex_u64(n: u64) -> (r: String)
    ensures
        r@ == hex_chars(n as int),
    decreases n,
{
    if n < 16 {
        let mut s = String::new();
        append_digit(&mut s, n as u32);
        proof {
            assert(s@ =~= seq![digit_char(n as int)]);
        }
        s
    } else {
        let mut s = format_hex_u64(n / 16);
        append_digit(&mut s, (n % 16) as u32);
        s
    }
}

/// Pads a string on the left with spaces or zeros up to `width`
/// characters.
pub fn padded_left(s: &str, width: usize, zero: bool) -> (r: String)
    ensures
        r@ == pad_left(s@, if zero {
            '0'
        } else {
            ' '
        }, width as int),
{
    let ghost pc: char = if zero {
        '0'
    } else {
        ' '
    };
    let len = s.unicode_len();
    let mut t = String::new();
    let mut i: usize = 0;
    let pad_n = if len >= width {
        0
    } else {
        width - len
    };
    while i < pad_n
        invariant
            i <= pad_n,
            t@ =~= char_run(pc, i as int),
            pc == (if zero {
                '0'
            } else {
                ' '
            }),
        decreases pad_n - i,
    {
        if zero {
            t.append("0");
        } else {
            t.append(" ");
        }
        proof {
            reveal_strlit("0");
            reveal_strlit(" ");
            assert(t@ =~= char_run(pc, i + 1));
        }
        i += 1;
    }
    t.append(s);
    proof {
        assert(t@ =~= pad_left(s@, pc, width as int));
    }
    t
}

/// Pads a string on the right with spaces up to `width` characters.
pub fn padded_right(s: &str, width: usize) -> (r: String)
    ensures
        r@ == s@ + char_run(' ', width - s@.len()),
{
    let len = s.unicode_len();
    let mut t = String::new();
    t.append(s);
    let mut i: usize = 0;
    let pad_n = if len >= width {
        0
    } else {
        width - len
    };
    while i < pad_n
        invariant
            i <= pad_n,
            t@ =~= s@ + char_run(' ', i as int),
        decreases pad_n - i,
    {
        t.append(" ");
        proof {
            reveal_strlit(" ");
            assert(t@ =~= s@ + char_run(' ', i + 1));
        }
        i += 1;
    }
    proof {
        assert(t@ =~= s@ + char_run(' ', width - s@.len()));
    }
    t
}

} // verus!

