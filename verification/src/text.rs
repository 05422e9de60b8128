//! Small helpers on text: comparing, filling up to a width, and rendering
//! numbers as decimal and hexadecimal digits.

use vstd::prelude::*;
use vstd::utf8::*;

verus! {

/// Whether two texts hold the same characters.
pub fn str_eq(a: &str, b: &str) -> (r: bool)
    ensures
        r == (a@ == b@),
{
    let x = a.as_bytes();
    let y = b.as_bytes();
    proof {
        encode_utf8_decode_utf8(a@);
        encode_utf8_decode_utf8(b@);
    }
    if x.len() != y.len() {
        return false;
    }
    let mut i: usize = 0;
    while i < x.len()
        invariant
            i <= x.len(),
            x.len() == y.len(),
            x@ == encode_utf8(a@),
            y@ == encode_utf8(b@),
            forall|k: int| 0 <= k < i ==> x@[k] == y@[k],
        decreases x.len() - i,
    {
        if x[i] != y[i] {
            return false;
        }
        i = i + 1;
    }
    assert(x@ =~= y@);
    true
}

/// `String::push` of the standard library appends one character to the end
/// of the string and changes nothing else.
pub assume_specification[ String::push ](s: &mut String, c: char)
    ensures
        final(s)@ == old(s)@.push(c),
;

/// The digit that stands for a value below sixteen, in upper case.
pub open spec fn spec_digit(n: int) -> char {
    if n < 10 {
        (0x30 + n) as char
    } else {
        (0x41 + n - 10) as char
    }
}

/// The hexadecimal digits of a number, most significant first, without
/// leading zeros; zero is one digit.
pub open spec fn hex_digits(v: nat) -> Seq<char>
    decreases v,
{
    if v < 16 {
        seq![spec_digit(v as int)]
    } else {
        hex_digits(v / 16).push(spec_digit((v % 16) as int))
    }
}

/// The decimal digits of a number, most significant first, without leading
/// zeros; zero is one digit.
pub open spec fn decimal_digits(v: nat) -> Seq<char>
    decreases v,
{
    if v < 10 {
        seq![spec_digit(v as int)]
    } else {
        decimal_digits(v / 10).push(spec_digit((v % 10) as int))
    }
}

/// The digits of a number in radix sixteen, and in radix ten for any other
/// radix.
pub open spec fn spec_digits(v: nat, radix: nat) -> Seq<char> {
    if radix == 16 {
        hex_digits(v)
    } else {
        decimal_digits(v)
    }
}

/// `n` copies of one character.
pub open spec fn repeated(c: char, n: int) -> Seq<char> {
    Seq::new(
        if n > 0 {
            n as nat
        } else {
            0
        },
        |i: int| c,
    )
}

/// A text filled up on the left to a width; a longer text stays as it is.
pub open spec fn pad_left(t: Seq<char>, width: nat, fill: char) -> Seq<char> {
    repeated(fill, width - t.len()) + t
}

/// A text filled up with spaces on the right to a width; a longer text stays
/// as it is.
pub open spec fn pad_right(t: Seq<char>, width: nat) -> Seq<char> {
    t + repeated(' ', width - t.len())
}

/// A number in upper-case hexadecimal, with zeros in front up to a width.
pub open spec fn spec_hex(v: nat, width: nat) -> Seq<char> {
    pad_left(spec_digits(v, 16), width, '0')
}

/// A number in decimal, with a minus sign if it is negative.
pub open spec fn spec_decimal(v: int) -> Seq<char> {
    if v < 0 {
        seq!['-'] + spec_digits((-v) as nat, 10)
    } else {
        spec_digits(v as nat, 10)
    }
}

/// The digit character of a value below sixteen.
fn digit(n: u8) -> (c: char)
    requires
        n < 16,
    ensures
        c == spec_digit(n as int),
{
    if n < 10 {
        (0x30 + n) as char
    } else {
        (0x41 + n - 10) as char
    }
}

/// Appends `n` copies of a character.
pub fn push_repeated(out: &mut String, c: char, n: usize)
    ensures
        final(out)@ == old(out)@ + repeated(c, n as int),
{
    let mut i: usize = 0;
    while i < n
        invariant
            i <= n,
            out@ == old(out)@ + repeated(c, i as int),
        decreases n - i,
    {
        out.push(c);
        i = i + 1;
    }
}

/// The digits of a number in radix ten or sixteen.
fn digits(v: u64, radix: u64) -> (r: Vec<char>)
    requires
        radix == 10 || radix == 16,
    ensures
        r@ == spec_digits(v as nat, radix as nat),
        r.len() >= 1,
    decreases v,
{
    if v < radix {
        let mut r: Vec<char> = Vec::new();
        r.push(digit(v as u8));
        r
    } else {
        let mut r = digits(v / radix, radix);
        r.push(digit((v % radix) as u8));
        r
    }
}

/// Appends characters to a text.
pub fn push_chars(out: &mut String, cs: &Vec<char>)
    ensures
        final(out)@ == old(out)@ + cs@,
{
    let mut i: usize = 0;
    while i < cs.len()
        invariant
            i <= cs.len(),
            out@ == old(out)@ + cs@.subrange(0, i as int),
        decreases cs.len() - i,
    {
        out.push(cs[i]);
        i = i + 1;
    }
}

/// Appends a number in upper-case hexadecimal, filled up with zeros.
pub fn push_hex(out: &mut String, v: u64, width: usize)
    ensures
        final(out)@ == old(out)@ + spec_hex(v as nat, width as nat),
{
    let d = digits(v, 16);
    if d.len() < width {
        push_repeated(out, '0', width - d.len());
    }
    push_chars(out, &d);
}

/// Appends a number in decimal.
pub fn push_decimal(out: &mut String, v: i64)
    ensures
        final(out)@ == old(out)@ + spec_decimal(v as int),
{
    if v < 0 {
        out.push('-');
        let d = digits((-(v as i128)) as u64, 10);
        push_chars(out, &d);
    } else {
        let d = digits(v as u64, 10);
        push_chars(out, &d);
    }
}

/// Appends a text, filled up with spaces on the right to a width.
pub fn push_padded(out: &mut String, t: &str, width: usize)
    ensures
        final(out)@ == old(out)@ + pad_right(t@, width as nat),
{
    let n = t.unicode_len();
    out.append(t);
    if n < width {
        push_repeated(out, ' ', width - n);
    }
}

/// A text, filled up with spaces on the left to a width.
pub fn right_aligned(t: &str, width: usize) -> (out: String)
    ensures
        out@ == pad_left(t@, width as nat, ' '),
{
    let n = t.unicode_len();
    let mut out = String::new();
    if n < width {
        push_repeated(&mut out, ' ', width - n);
    }
    out.append(t);
    out
}

/// The two hexadecimal digits of every byte, in order.
pub open spec fn hex_bytes(b: Seq<u8>) -> Seq<char>
    decreases b.len(),
{
    if b.len() == 0 {
        Seq::empty()
    } else {
        hex_bytes(b.drop_last()) + spec_hex(b.last() as nat, 2)
    }
}

/// Appends the two hexadecimal digits of every byte.
pub fn push_hex_bytes(out: &mut String, b: &Vec<u8>)
    ensures
        final(out)@ == old(out)@ + hex_bytes(b@),
{
    let mut i: usize = 0;
    while i < b.len()
        invariant
            i <= b.len(),
            out@ == old(out)@ + hex_bytes(b@.subrange(0, i as int)),
        decreases b.len() - i,
    {
        assert(b@.subrange(0, i + 1).drop_last() =~= b@.subrange(0, i as int));
        push_hex(out, b[i] as u64, 2);
        i = i + 1;
    }
    assert(b@.subrange(0, i as int) =~= b@);
}

} // verus!
