//! The parser: executable functions that read a line as the grammar says.

use crate::chars::{
    is_blank, is_decimal_char, is_hex_char, is_identifier_char, to_upper, upper, upper_text,
    value_of,
};
use crate::grammar;
use crate::grammar::{in_class, number_value, run_end, CharClass};
use crate::line::{
    addr_mod, arg, arg_struct, operands_view, source_op, text_view, Line, OperandView,
    SourceOpView, NOT_A_REGISTER,
};
use crate::tables::{asm_directive, instruction};
use crate::text::str_eq;
use vstd::prelude::*;

verus! {

/// Whether a character belongs to a class.
pub fn belongs(k: CharClass, c: char) -> (r: bool)
    ensures
        r == in_class(k, c),
{
    match k {
        CharClass::Blank => is_blank(c),
        CharClass::Identifier => is_identifier_char(c),
        CharClass::Decimal => is_decimal_char(c),
        CharClass::Hex => is_hex_char(c),
        CharClass::Unquoted => c != '\'',
        CharClass::SameLine => c != '\n',
    }
}

/// The end of the longest run of characters of a class from `i` on.
pub fn scan(s: &Vec<char>, i: usize, k: CharClass) -> (e: usize)
    ensures
        e == run_end(s@, i as int, k),
        i <= e,
        e <= s.len() || e == i,
        forall|t: int| i <= t < e ==> in_class(k, #[trigger] s@[t]),
        e < s.len() ==> !in_class(k, s@[e as int]),
{
    let mut e = i;
    while e < s.len() && belongs(k, s[e])
        invariant
            i <= e,
            e <= s.len() || e == i,
            run_end(s@, e as int, k) == run_end(s@, i as int, k),
            forall|t: int| i <= t < e ==> in_class(k, #[trigger] s@[t]),
        decreases s.len() - e,
    {
        e = e + 1;
    }
    e
}

/// The text of a part of the line.
fn text_between(s: &Vec<char>, i: usize, e: usize) -> (r: String)
    requires
        i <= e <= s.len(),
    ensures
        r@ == s@.subrange(i as int, e as int),
{
    let mut r = String::new();
    let mut t = i;
    while t < e
        invariant
            i <= t <= e <= s.len(),
            r@ == s@.subrange(i as int, t as int),
        decreases e - t,
    {
        r.push(s[t]);
        t = t + 1;
    }
    r
}

/// The text of a part of the line, in upper case.
fn upper_between(s: &Vec<char>, i: usize, e: usize) -> (r: String)
    requires
        i <= e <= s.len(),
    ensures
        r@ == upper_text(s@.subrange(i as int, e as int)),
{
    let mut r = String::new();
    let mut t = i;
    while t < e
        invariant
            i <= t <= e <= s.len(),
            r@ == upper_text(s@.subrange(i as int, t as int)),
        decreases e - t,
    {
        r.push(to_upper(s[t]));
        t = t + 1;
    }
    r
}

/// Whether an executable number and position are the ones that the grammar
/// names.
pub open spec fn same_number(r: Option<(i32, usize)>, g: Option<(i32, int)>) -> bool {
    match g {
        Some((v, e)) => r == Some((v, e as usize)) && 0 <= e <= usize::MAX,
        None => r is None,
    }
}

/// Reading one more digit multiplies by the radix and adds the digit, also
/// under reduction to twenty-four bits.
proof fn lemma_next_digit(x: int, radix: int, d: int, acc: int)
    requires
        acc == x % 0x100_0000,
        radix == 10 || radix == 16,
    ensures
        (acc * radix + d) % 0x100_0000 == (x * radix + d) % 0x100_0000,
{
    let q = x / 0x100_0000;
    if radix == 10 {
        vstd::arithmetic::div_mod::lemma_mod_multiples_vanish(q * 10, acc * 10 + d, 0x100_0000);
    } else {
        vstd::arithmetic::div_mod::lemma_mod_multiples_vanish(q * 16, acc * 16 + d, 0x100_0000);
    }
}

/// An optional sign and digits, decimal or hexadecimal.
fn numeral(s: &Vec<char>, i: usize, hexadecimal: bool) -> (r: Option<(i32, usize)>)
    ensures
        same_number(
            r,
            if hexadecimal {
                grammar::hex_base(s@, i as int)
            } else {
                grammar::dec(s@, i as int)
            },
        ),
        r matches Some((v, e)) ==> i < e <= s.len() && 0 <= v < 0x100_0000,
{
    let k = if hexadecimal {
        CharClass::Hex
    } else {
        CharClass::Decimal
    };
    let radix: u32 = if hexadecimal {
        16
    } else {
        10
    };
    let has_sign = i < s.len() && (s[i] == '+' || s[i] == '-');
    let j = if has_sign {
        i + 1
    } else {
        i
    };
    let e = scan(s, j, k);
    if e == j {
        return None;
    }
    let mut acc: u32 = 0;
    let mut t = j;
    while t < e
        invariant
            j <= t <= e <= s.len(),
            radix == if hexadecimal {
                16u32
            } else {
                10u32
            },
            acc < 0x100_0000,
            acc == number_value(s@.subrange(j as int, t as int), radix as int) % 0x100_0000,
            forall|u: int| j <= u < e ==> in_class(k, #[trigger] s@[u]),
            k == CharClass::Hex || k == CharClass::Decimal,
        decreases e - t,
    {
        let d = value_of(s[t]);
        proof {
            let ds = s@.subrange(j as int, t + 1);
            assert(ds.drop_last() =~= s@.subrange(j as int, t as int));
            lemma_next_digit(
                number_value(s@.subrange(j as int, t as int), radix as int),
                radix as int,
                d as int,
                acc as int,
            );
        }
        let scaled: u32 = if hexadecimal {
            acc * 16
        } else {
            acc * 10
        };
        acc = (scaled + d) % 0x100_0000;
        t = t + 1;
    }
    let ghost m = number_value(s@.subrange(j as int, e as int), radix as int);
    let v: u32 = if has_sign && s[i] == '-' {
        proof {
            let q = m / 0x100_0000;
            if acc == 0 {
                vstd::arithmetic::div_mod::lemma_mod_multiples_vanish(-q, 0, 0x100_0000);
            } else {
                vstd::arithmetic::div_mod::lemma_mod_multiples_vanish(
                    -q - 1,
                    0x100_0000 - acc,
                    0x100_0000,
                );
            }
        }
        if acc == 0 {
            0
        } else {
            0x100_0000 - acc
        }
    } else {
        acc
    };
    Some((v as i32, e))
}

/// A decimal number.
pub fn dec(s: &Vec<char>, i: usize) -> (r: Option<(i32, usize)>)
    ensures
        same_number(r, grammar::dec(s@, i as int)),
        r matches Some((v, e)) ==> i < e <= s.len(),
{
    numeral(s, i, false)
}

/// A hexadecimal number with the letter `h` after it.
pub fn hex(s: &Vec<char>, i: usize) -> (r: Option<(i32, usize)>)
    ensures
        same_number(r, grammar::hex(s@, i as int)),
        r matches Some((v, e)) ==> i < e <= s.len(),
{
    match numeral(s, i, true) {
        Some((v, e)) => if e < s.len() && s[e] == 'h' {
            Some((v, e + 1))
        } else {
            None
        },
        None => None,
    }
}

/// A hexadecimal number between `x'` and `'`.
pub fn hex_lit(s: &Vec<char>, i: usize) -> (r: Option<(i32, usize)>)
    ensures
        same_number(r, grammar::hex_lit(s@, i as int)),
        r matches Some((v, e)) ==> i < e <= s.len(),
{
    if s.len() >= 2 && i < s.len() - 1 && (s[i] == 'x' || s[i] == 'X') && s[i + 1] == '\'' {
        match numeral(s, i + 2, true) {
            Some((v, e)) => if e < s.len() && s[e] == '\'' {
                Some((v, e + 1))
            } else {
                None
            },
            None => None,
        }
    } else {
        None
    }
}

/// A number in one of its three forms.
pub fn num(s: &Vec<char>, i: usize) -> (r: Option<(i32, usize)>)
    ensures
        same_number(r, grammar::num(s@, i as int)),
        r matches Some((v, e)) ==> i < e <= s.len(),
{
    match hex_lit(s, i) {
        Some(r) => Some(r),
        None => match hex(s, i) {
            Some(r) => Some(r),
            None => dec(s, i),
        },
    }
}

/// Whether an executable text and position are the ones that the grammar
/// names.
pub open spec fn same_text(r: Option<(String, usize)>, g: Option<(Seq<char>, int)>) -> bool {
    match g {
        Some((t, e)) => match r {
            Some((x, y)) => x@ == t && y == e,
            None => false,
        },
        None => r is None,
    }
}

/// A character string between `c'` and the next `'`.
pub fn str_lit(s: &Vec<char>, i: usize) -> (r: Option<(String, usize)>)
    ensures
        same_text(r, grammar::str_lit(s@, i as int)),
        r matches Some((t, e)) ==> i < e <= s.len(),
{
    if s.len() >= 2 && i < s.len() - 1 && (s[i] == 'c' || s[i] == 'C') && s[i + 1] == '\'' {
        let e = scan(s, i + 2, CharClass::Unquoted);
        if e < s.len() {
            Some((text_between(s, i + 2, e), e + 1))
        } else {
            None
        }
    } else {
        None
    }
}

/// The word that starts at `i` and ends at `e`, as it stands or in upper
/// case.
fn word_between(s: &Vec<char>, i: usize, e: usize, upper_case: bool) -> (r: String)
    requires
        e == run_end(s@, i as int, CharClass::Identifier),
        i <= e,
        e <= s.len() || e == i,
    ensures
        r@ == if upper_case {
            upper_text(grammar::word(s@, i as int))
        } else {
            grammar::word(s@, i as int)
        },
{
    if i > s.len() {
        String::new()
    } else if upper_case {
        upper_between(s, i, e)
    } else {
        text_between(s, i, e)
    }
}

/// Whether an executable operation and position are the ones that the
/// grammar names.
pub open spec fn same_operation(r: Option<(source_op, usize)>, g: Option<(SourceOpView, int)>)
    -> bool {
    match g {
        Some((op, e)) => match r {
            Some((x, y)) => x@ == op && y == e,
            None => false,
        },
        None => r is None,
    }
}

/// A directive or an instruction.
pub fn mnemonic(s: &Vec<char>, i: usize) -> (r: Option<(source_op, usize)>)
    ensures
        same_operation(r, grammar::mnemonic_at(s@, i as int)),
        r matches Some((op, e)) ==> i <= e && (e <= s.len() || e == i),
{
    let e = scan(s, i, CharClass::Identifier);
    let w = word_between(s, i, e, true);
    match asm_directive(w.as_str()) {
        Some(op) => Some((op, e)),
        None => {
            let long = i < s.len() && s[i] == '+';
            let j = if long {
                i + 1
            } else {
                i
            };
            let e = scan(s, j, CharClass::Identifier);
            let w = word_between(s, j, e, true);
            match instruction(w.as_str(), long) {
                Some(op) => Some((op, e)),
                None => None,
            }
        },
    }
}

/// A name: the word at `i`, unless a mnemonic stands there.
pub fn label(s: &Vec<char>, i: usize) -> (r: Option<(String, usize)>)
    ensures
        same_text(r, grammar::label(s@, i as int)),
        r matches Some((t, e)) ==> i <= e && (e <= s.len() || e == i),
{
    match mnemonic(s, i) {
        Some(_) => None,
        None => {
            let e = scan(s, i, CharClass::Identifier);
            Some((word_between(s, i, e, false), e))
        },
    }
}

/// The upper-case form of a text.
pub fn upper_case(name: &str) -> (r: String)
    ensures
        r@ == upper_text(name@),
{
    let mut r = String::new();
    for c in it: name.chars()
        invariant
            it.seq() == name@,
            r@ == upper_text(it.seq().subrange(0, it.index() as int)),
    {
        r.push(to_upper(c));
    }
    r
}

/// The code of the register that a name stands for, or [`NOT_A_REGISTER`].
pub fn register_of(name: &str) -> (r: u8)
    ensures
        r == grammar::register_code(name@),
{
    let u = upper_case(name);
    let w = u.as_str();
    if str_eq(w, "A") {
        0x00
    } else if str_eq(w, "X") {
        0x01
    } else if str_eq(w, "L") {
        0x02
    } else if str_eq(w, "B") {
        0x03
    } else if str_eq(w, "S") {
        0x04
    } else if str_eq(w, "T") {
        0x05
    } else if str_eq(w, "F") {
        0x06
    } else if str_eq(w, "PC") {
        0x08
    } else if str_eq(w, "SW") {
        0x09
    } else {
        NOT_A_REGISTER
    }
}

/// Whether an executable operand and position are the ones that the grammar
/// names.
pub open spec fn same_operand(r: Option<(arg_struct, usize)>, g: Option<(OperandView, int)>)
    -> bool {
    match g {
        Some((a, e)) => match r {
            Some((x, y)) => x@ == a && y == e,
            None => false,
        },
        None => r is None,
    }
}

/// An operand: an optional addressing mark and a content.
pub fn operand(s: &Vec<char>, i: usize) -> (r: Option<(arg_struct, usize)>)
    ensures
        same_operand(r, grammar::operand(s@, i as int)),
        r matches Some((a, e)) ==> i <= e && (e <= s.len() || e == i),
{
    let (modifier, j) = if i < s.len() && s[i] == '#' {
        (addr_mod::Immediate, i + 1)
    } else if i < s.len() && s[i] == '@' {
        (addr_mod::Indirect, i + 1)
    } else if i < s.len() && s[i] == '=' {
        (addr_mod::Literal, i + 1)
    } else {
        (addr_mod::Direct, i)
    };
    match num(s, j) {
        Some((v, e)) => Some(
            (arg_struct { val: arg::IntLit(v), reg_code: NOT_A_REGISTER, modifier }, e),
        ),
        None => match str_lit(s, j) {
            Some((t, e)) => Some(
                (arg_struct { val: arg::StrLit(t), reg_code: NOT_A_REGISTER, modifier }, e),
            ),
            None => match label(s, j) {
                Some((n, e)) => {
                    let reg_code = register_of(n.as_str());
                    Some((arg_struct { val: arg::Label(n), reg_code, modifier }, e))
                },
                None => None,
            },
        },
    }
}

/// The separator of two operands.
fn separator(s: &Vec<char>, i: usize) -> (r: Option<usize>)
    requires
        i <= s.len(),
    ensures
        match grammar::separator(s@, i as int) {
            Some(e) => r == Some(e as usize) && i < e <= s.len(),
            None => r is None,
        },
{
    let a = if i < s.len() && is_blank(s[i]) {
        i + 1
    } else {
        i
    };
    if a < s.len() && s[a] == ',' {
        if a + 1 < s.len() && is_blank(s[a + 1]) {
            Some(a + 2)
        } else {
            Some(a + 1)
        }
    } else {
        None
    }
}

/// The operands that follow the ones in `list`, which end at `i`.
fn more_operands(s: &Vec<char>, i: usize, list: &mut Vec<arg_struct>) -> (end: usize)
    requires
        i <= s.len(),
    ensures
        operands_view(final(list)@) == operands_view(old(list)@) + grammar::more_operands(
            s@,
            i as int,
        ).0,
        end == grammar::more_operands(s@, i as int).1,
        i <= end <= s.len(),
{
    let ghost all = grammar::more_operands(s@, i as int);
    let mut cur = i;
    loop
        invariant
            i <= cur <= s.len(),
            all == grammar::more_operands(s@, i as int),
            operands_view(list@) + grammar::more_operands(s@, cur as int).0 == operands_view(
                old(list)@,
            ) + all.0,
            grammar::more_operands(s@, cur as int).1 == all.1,
        decreases s.len() - cur,
    {
        let ghost rest = grammar::more_operands(s@, cur as int);
        let ghost before = operands_view(list@);
        let next = match separator(s, cur) {
            None => None,
            Some(j) => match operand(s, j) {
                None => None,
                Some((a, e)) => if e > j {
                    Some((a, e))
                } else {
                    None
                },
            },
        };
        match next {
            None => {
                assert(rest.0 =~= Seq::<OperandView>::empty());
                assert(before + rest.0 =~= before);
                return cur;
            },
            Some((a, e)) => {
                let ghost first = a@;
                list.push(a);
                assert(operands_view(list@) =~= before.push(first));
                assert(before.push(first) + grammar::more_operands(s@, e as int).0 =~= before
                    + rest.0);
                cur = e;
            },
        }
    }
}

/// The operand list: at least one blank, then operands with separators
/// between them.
pub fn args(s: &Vec<char>, i: usize) -> (r: Option<(Vec<arg_struct>, usize)>)
    ensures
        match grammar::operands(s@, i as int) {
            Some((list, e)) => match r {
                Some((x, y)) => operands_view(x@) == list && y == e && i <= y <= s.len(),
                None => false,
            },
            None => r is None,
        },
{
    let w = scan(s, i, CharClass::Blank);
    if w == i {
        return None;
    }
    let mut list: Vec<arg_struct> = Vec::new();
    match operand(s, w) {
        None => {
            Some((list, w))
        },
        Some((a, e)) => if e == w {
            None
        } else {
            let ghost first = a@;
            list.push(a);
            let end = more_operands(s, e, &mut list);
            Some((list, end))
        },
    }
}

/// The comment at `i`: what follows a `.` after blanks, up to the end of the
/// line.
pub fn comment(s: &Vec<char>, i: usize) -> (r: Option<String>)
    ensures
        text_view(r) == grammar::comment(s@, i as int),
{
    let j = scan(s, i, CharClass::Blank);
    if j < s.len() && s[j] == '.' {
        Some(text_between(s, j + 1, s.len()))
    } else {
        None
    }
}

/// The characters of the first line of a text.
pub fn line_chars(text: &str) -> (r: Vec<char>)
    ensures
        r@ == grammar::line_of(text@),
{
    let mut all: Vec<char> = Vec::new();
    for c in it: text.chars()
        invariant
            it.seq() == text@,
            all@ == it.seq().subrange(0, it.index() as int),
    {
        all.push(c);
    }
    assert(all@ =~= text@);
    let e = scan(&all, 0, CharClass::SameLine);
    all.truncate(e);
    all
}

/// Parses one line of source text into a statement. The statement has no
/// number, address, layout or bytes yet. A line that holds no mnemonic gives
/// a statement whose operation is unrecognized; no line fails.
pub fn parse_line(text: &str) -> (r: Line)
    ensures
        r@ == grammar::parsed_line(text@),
{
    let s = line_chars(text);
    let i = scan(&s, 0, CharClass::Blank);
    let mut r = Line::new();
    if s.len() == 0 || (i < s.len() && s[i] == '.') {
        match comment(&s, 0) {
            Some(c) => {
                r.comment = c;
            },
            None => {},
        }
        return r;
    }
    let mut j = i;
    match label(&s, i) {
        Some((l, e)) => {
            let b = scan(&s, e, CharClass::Blank);
            if b > e {
                r.label = Some(l);
                j = b;
            }
        },
        None => {},
    }
    let mut k = j;
    match mnemonic(&s, j) {
        Some((op, e)) => {
            r.operation = op;
            k = e;
        },
        None => {
            r.operation = source_op::Error;
        },
    }
    let mut end = k;
    match args(&s, k) {
        Some((list, e)) => {
            r.args = list;
            end = e;
        },
        None => {},
    }
    match comment(&s, end) {
        Some(c) => {
            r.comment = c;
        },
        None => {},
    }
    r
}

} // verus!
